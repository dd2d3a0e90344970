//! The options parser: turns the text of an options block into time
//! signature and fidelity settings, collecting one error message per
//! bad segment.

use vstd::prelude::*;

use crate::text::{
    parse_u32, spec_parse_u32, spec_split, spec_trim, split_str, trim_str, NumError,
};
use crate::time::{Time, TimeV};

verus! {

/// The cause text of a number-parse failure, as the standard library
/// words it.
pub open spec fn spec_num_error_text(e: NumError) -> Seq<char> {
    match e {
        NumError::Empty => "cannot parse integer from empty string"@,
        NumError::InvalidDigit => "invalid digit found in string"@,
        NumError::TooLarge => "number too large to fit in target type"@,
    }
}

impl NumError {
    /// The cause text of this failure.
    pub fn text(&self) -> (r: &'static str)
        ensures
            r@ == spec_num_error_text(*self),
    {
        match self {
            NumError::Empty => "cannot parse integer from empty string",
            NumError::InvalidDigit => "invalid digit found in string",
            NumError::TooLarge => "number too large to fit in target type",
        }
    }
}

/// The error for an option segment without a value.
pub open spec fn spec_msg_unset(seg: Seq<char>) -> Seq<char> {
    "\tOption \""@ + seg + "\" has not been set to a value.\n"@
}

/// The error for an unknown option name.
pub open spec fn spec_msg_unknown(name: Seq<char>) -> Seq<char> {
    "\tOption \""@ + name + "\" does not exist.\n"@
}

/// The error for a time signature without a slash.
pub open spec fn spec_msg_sig_format(value: Seq<char>) -> Seq<char> {
    "\tTime signature option \""@ + value
        + "\" is improperly formatted. Format should equal \"n/n\" where 'n' is a whole integer.\n"@
}

/// The error when neither side of a time signature is a number.
pub open spec fn spec_msg_sig_both(t0: Seq<char>, t1: Seq<char>, eb: NumError, ed: NumError) -> Seq<
    char,
> {
    "\tCould not parse time signature \""@ + t0 + "/"@ + t1 + "\" into numbers: "@
        + spec_num_error_text(eb) + "; "@ + spec_num_error_text(ed) + "\n"@
}

/// The error when the numerator of a time signature is no number.
pub open spec fn spec_msg_sig_numerator(t0: Seq<char>, eb: NumError) -> Seq<char> {
    "\tCould not parse beats per measure (numerator) \""@ + t0 + "\" into a number: "@
        + spec_num_error_text(eb) + "\n"@
}

/// The error when the denominator of a time signature is no number.
pub open spec fn spec_msg_sig_denominator(t1: Seq<char>, ed: NumError) -> Seq<char> {
    "\tCould not parse dominant beat (denominator) \""@ + t1 + "\" into a number: "@
        + spec_num_error_text(ed) + "\n"@
}

/// The error when the fidelity value is no number.
pub open spec fn spec_msg_fidelity(value: Seq<char>, e: NumError) -> Seq<char> {
    "\tCould not parse beat fidelity \""@ + value + "\" into a number: "@ + spec_num_error_text(e)
        + "\n"@
}

/// The clamped time signature update.
pub open spec fn spec_set_signature(t: TimeV, b: u32, d: u32) -> TimeV {
    TimeV {
        beats_per_measure: if b > 0 {
            b
        } else {
            1u32
        },
        dominant_beat: if d > 0 {
            d
        } else {
            1u32
        },
        ..t
    }
}

/// The clamped fidelity update.
pub open spec fn spec_set_fidelity(t: TimeV, f: u32) -> TimeV {
    TimeV {
        fidelity: if f > 0 {
            f
        } else {
            1u32
        },
        ..t
    }
}

/// Applies a `time` option value of the form `n/n`: on success the
/// signature is set (each side clamped to at least one) and the error
/// text is empty; otherwise the time is unchanged and the error text
/// says which side failed.
pub open spec fn spec_parse_time_signature(t: TimeV, value: Seq<char>) -> (TimeV, Seq<char>) {
    let ps = spec_split(spec_trim(value), '/');
    if ps.len() < 2 {
        (t, spec_msg_sig_format(value))
    } else {
        let rb = spec_parse_u32(spec_trim(ps[0]));
        let rd = spec_parse_u32(spec_trim(ps[1]));
        if rb is Ok && rd is Ok {
            (spec_set_signature(t, rb->Ok_0, rd->Ok_0), Seq::<char>::empty())
        } else if rb is Err && rd is Err {
            (t, spec_msg_sig_both(ps[0], ps[1], rb->Err_0, rd->Err_0))
        } else if rb is Err {
            (t, spec_msg_sig_numerator(ps[0], rb->Err_0))
        } else {
            (t, spec_msg_sig_denominator(ps[1], rd->Err_0))
        }
    }
}

/// Applies a `fidelity` option value: on success the fidelity is set
/// (clamped to at least one) and the error text is empty.
pub open spec fn spec_parse_fidelity(t: TimeV, value: Seq<char>) -> (TimeV, Seq<char>) {
    let r = spec_parse_u32(spec_trim(value));
    if r is Ok {
        (spec_set_fidelity(t, r->Ok_0), Seq::<char>::empty())
    } else {
        (t, spec_msg_fidelity(value, r->Err_0))
    }
}

/// Applies one option segment: the trimmed segment is split once at
/// `=`; a missing value, an unknown name, or a bad value leaves the
/// time unchanged and yields an error text, otherwise the setting is
/// applied and the error text is empty.
pub open spec fn spec_apply_option(t: TimeV, seg: Seq<char>) -> (TimeV, Seq<char>) {
    let o = spec_split(spec_trim(seg), '=');
    if o.len() < 2 {
        (t, spec_msg_unset(spec_trim(seg)))
    } else {
        let name = spec_trim(o[0]);
        let value = spec_trim(o[1]);
        if name == "time"@ {
            spec_parse_time_signature(t, value)
        } else if name == "fidelity"@ {
            spec_parse_fidelity(t, value)
        } else {
            (t, spec_msg_unknown(name))
        }
    }
}

/// Applies the segments from `i` on, concatenating their error texts.
pub open spec fn spec_apply_options_from(t: TimeV, segs: Seq<Seq<char>>, i: int) -> (
    TimeV,
    Seq<char>,
)
    recommends
        0 <= i <= segs.len(),
    decreases segs.len() - i,
{
    if i < 0 || i >= segs.len() {
        (t, Seq::<char>::empty())
    } else {
        let (t1, e) = spec_apply_option(t, segs[i]);
        let (t2, rest) = spec_apply_options_from(t1, segs, i + 1);
        (t2, e + rest)
    }
}

/// Applies a whole options text: split at `;`, every segment applied
/// in order, all error texts concatenated.
pub open spec fn spec_apply_options(t: TimeV, options: Seq<char>) -> (TimeV, Seq<char>) {
    spec_apply_options_from(t, spec_split(options, ';'), 0)
}

/// Applying option segments keeps the time model well formed: every
/// setting that lands is clamped to at least one.
proof fn lemma_apply_options_from_wf(t: TimeV, segs: Seq<Seq<char>>, i: int)
    requires
        crate::time::time_wf(t),
        0 <= i,
    ensures
        crate::time::time_wf(spec_apply_options_from(t, segs, i).0),
    decreases segs.len() - i,
{
    if i < segs.len() {
        let t1 = spec_apply_option(t, segs[i]).0;
        assert(crate::time::time_wf(t1));
        lemma_apply_options_from_wf(t1, segs, i + 1);
    }
}

/// Applying a whole options text keeps the time model well formed.
pub proof fn lemma_apply_options_wf(t: TimeV, options: Seq<char>)
    requires
        crate::time::time_wf(t),
    ensures
        crate::time::time_wf(spec_apply_options(t, options).0),
{
    lemma_apply_options_from_wf(t, spec_split(options, ';'), 0);
}

/// The global option defaults copied into each newly created staff.
pub struct StaffOptions {
    time: Time,
}

impl View for StaffOptions {
    type V = TimeV;

    closed spec fn view(&self) -> TimeV {
        self.time@
    }
}

impl StaffOptions {
    /// Creates option defaults with the default time model.
    pub fn new() -> (o: StaffOptions)
        ensures
            o@ == (TimeV {
                beats_per_measure: 4,
                dominant_beat: 4,
                fidelity: 16,
                current_beat: 0,
                total_beats_counted: 0,
            }),
    {
        StaffOptions { time: Time::new() }
    }

    /// Gets the time signature as a pair.
    pub fn get_time_signature(&self) -> (r: (u32, u32))
        ensures
            r.0 == self@.beats_per_measure,
            r.1 == self@.dominant_beat,
    {
        self.time.get_signature()
    }

    /// Gets the beat fidelity.
    pub fn get_time_fidelity(&self) -> (r: u32)
        ensures
            r == self@.fidelity,
    {
        self.time.get_fidelity()
    }

    /// Parses a `time` option value and applies it.
    fn parse_time_signature(&mut self, time_signature: &str) -> (r: Result<(), String>)
        ensures
            final(self)@ == spec_parse_time_signature(old(self)@, time_signature@).0,
            r is Ok <==> spec_parse_time_signature(old(self)@, time_signature@).1.len() == 0,
            r matches Err(e) ==> e@ == spec_parse_time_signature(old(self)@, time_signature@).1,
    {
        let trimmed = trim_str(time_signature);
        let t = split_str(trimmed.as_str(), '/');
        if t.len() < 2 {
            let mut m = String::new();
            m.append("\tTime signature option \"");
            m.append(time_signature);
            m.append(
                "\" is improperly formatted. Format should equal \"n/n\" where 'n' is a whole integer.\n",
            );
            proof {
                assert(m@ =~= spec_msg_sig_format(time_signature@));
                assert(m@.len() > 0) by {
                    reveal_strlit(
                        "\" is improperly formatted. Format should equal \"n/n\" where 'n' is a whole integer.\n",
                    );
                };
            }
            return Err(m);
        }
        let t0 = trim_str(t[0].as_str());
        let t1 = trim_str(t[1].as_str());
        match (parse_u32(t0.as_str()), parse_u32(t1.as_str())) {
            (Ok(b), Ok(d)) => {
                self.time.set_signature(b, d);
                Ok(())
            },
            (Err(e_b), Err(e_d)) => {
                let mut m = String::new();
                m.append("\tCould not parse time signature \"");
                m.append(t[0].as_str());
                m.append("/");
                m.append(t[1].as_str());
                m.append("\" into numbers: ");
                m.append(e_b.text());
                m.append("; ");
                m.append(e_d.text());
                m.append("\n");
                proof {
                    assert(m@ =~= spec_msg_sig_both(t@[0]@, t@[1]@, e_b, e_d));
                    assert(spec_msg_sig_both(t@[0]@, t@[1]@, e_b, e_d).len() > 0) by {
                        reveal_strlit("\n");
                    };
                }
                Err(m)
            },
            (Err(e_b), _) => {
                let mut m = String::new();
                m.append("\tCould not parse beats per measure (numerator) \"");
                m.append(t[0].as_str());
                m.append("\" into a number: ");
                m.append(e_b.text());
                m.append("\n");
                proof {
                    assert(m@ =~= spec_msg_sig_numerator(t@[0]@, e_b));
                    assert(spec_msg_sig_numerator(t@[0]@, e_b).len() > 0) by {
                        reveal_strlit("\n");
                    };
                }
                Err(m)
            },
            (_, Err(e_d)) => {
                let mut m = String::new();
                m.append("\tCould not parse dominant beat (denominator) \"");
                m.append(t[1].as_str());
                m.append("\" into a number: ");
                m.append(e_d.text());
                m.append("\n");
                proof {
                    assert(m@ =~= spec_msg_sig_denominator(t@[1]@, e_d));
                    assert(spec_msg_sig_denominator(t@[1]@, e_d).len() > 0) by {
                        reveal_strlit("\n");
                    };
                }
                Err(m)
            },
        }
    }

    /// Parses a `fidelity` option value and applies it.
    fn parse_fidelity(&mut self, fidelity: &str) -> (r: Result<(), String>)
        ensures
            final(self)@ == spec_parse_fidelity(old(self)@, fidelity@).0,
            r is Ok <==> spec_parse_fidelity(old(self)@, fidelity@).1.len() == 0,
            r matches Err(e) ==> e@ == spec_parse_fidelity(old(self)@, fidelity@).1,
    {
        let trimmed = trim_str(fidelity);
        match parse_u32(trimmed.as_str()) {
            Ok(f) => {
                self.time.set_fidelity(f);
                Ok(())
            },
            Err(e) => {
                let mut m = String::new();
                m.append("\tCould not parse beat fidelity \"");
                m.append(fidelity);
                m.append("\" into a number: ");
                m.append(e.text());
                m.append("\n");
                proof {
                    assert(m@ =~= spec_msg_fidelity(fidelity@, e));
                    assert(spec_msg_fidelity(fidelity@, e).len() > 0) by {
                        reveal_strlit("\n");
                    };
                }
                Err(m)
            },
        }
    }

    /// Applies one option segment.
    fn parse_option(&mut self, option: &str) -> (r: Result<(), String>)
        ensures
            final(self)@ == spec_apply_option(old(self)@, option@).0,
            r is Ok <==> spec_apply_option(old(self)@, option@).1.len() == 0,
            r matches Err(e) ==> e@ == spec_apply_option(old(self)@, option@).1,
    {
        let trimmed = trim_str(option);
        let o = split_str(trimmed.as_str(), '=');
        if o.len() < 2 {
            let mut m = String::new();
            m.append("\tOption \"");
            m.append(trimmed.as_str());
            m.append("\" has not been set to a value.\n");
            proof {
                assert(m@ =~= spec_msg_unset(spec_trim(option@)));
                assert(spec_msg_unset(spec_trim(option@)).len() > 0) by {
                    reveal_strlit("\" has not been set to a value.\n");
                };
            }
            return Err(m);
        }
        let name = trim_str(o[0].as_str());
        let value = trim_str(o[1].as_str());
        if name == "time".to_owned() {
            proof {
                reveal_strlit("time");
            }
            self.parse_time_signature(value.as_str())
        } else if name == "fidelity".to_owned() {
            proof {
                reveal_strlit("time");
                reveal_strlit("fidelity");
            }
            self.parse_fidelity(value.as_str())
        } else {
            proof {
                reveal_strlit("time");
                reveal_strlit("fidelity");
            }
            let mut m = String::new();
            m.append("\tOption \"");
            m.append(name.as_str());
            m.append("\" does not exist.\n");
            proof {
                assert(m@ =~= spec_msg_unknown(spec_trim(o@[0]@)));
                assert(spec_msg_unknown(spec_trim(o@[0]@)).len() > 0) by {
                    reveal_strlit("\" does not exist.\n");
                };
            }
            Err(m)
        }
    }

    /// Applies a whole options text: every segment between semicolons
    /// is applied in order, and the error texts of all bad segments
    /// are concatenated into one failure message.
    pub fn set(&mut self, options: &str) -> (r: Result<(), String>)
        ensures
            final(self)@ == spec_apply_options(old(self)@, options@).0,
            r is Ok <==> spec_apply_options(old(self)@, options@).1.len() == 0,
            r matches Err(e) ==> e@ == spec_apply_options(old(self)@, options@).1,
    {
        let segs = split_str(options, ';');
        let ghost seg_views = crate::text::string_views(segs@);
        let mut errors = String::new();
        let mut i: usize = 0;
        while i < segs.len()
            invariant
                seg_views == crate::text::string_views(segs@),
                seg_views == spec_split(options@, ';'),
                0 <= i <= segs@.len(),
                spec_apply_options(old(self)@, options@).0 == spec_apply_options_from(
                    self@,
                    seg_views,
                    i as int,
                ).0,
                spec_apply_options(old(self)@, options@).1 =~= errors@ + spec_apply_options_from(
                    self@,
                    seg_views,
                    i as int,
                ).1,
            decreases segs@.len() - i,
        {
            let ghost t_before = self@;
            match self.parse_option(segs[i].as_str()) {
                Ok(()) => {},
                Err(e) => {
                    errors.append(e.as_str());
                },
            }
            i = i + 1;
        }
        if errors.as_str().unicode_len() == 0 {
            proof {
                assert(errors@ =~= Seq::<char>::empty());
            }
            Ok(())
        } else {
            Err(errors)
        }
    }
}

} // verus!
