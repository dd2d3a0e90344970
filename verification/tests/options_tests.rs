use tablature::options::StaffOptions;
use tablature::staff::Staff;
use tablature::time::Time;

#[test]
fn signature_and_fidelity_clamp_to_one() {
    let mut time = Time::new();
    time.set_signature(0, 0);
    assert_eq!((1, 1), time.get_signature());
    time.set_fidelity(0);
    assert_eq!(1, time.get_fidelity());

    time.set_signature(3, 8);
    assert_eq!((3, 8), time.get_signature());
    time.set_fidelity(32);
    assert_eq!(32, time.get_fidelity());
}

#[test]
fn staff_settings_freeze_once_tabs_exist() {
    let mut staff = Staff::new();
    staff.add_note(String::from("E")).expect("a fresh staff takes notes");
    assert!(staff.set_time_signature((3, 4)).is_ok());
    assert!(staff.set_time_fidelity(8).is_ok());

    staff.add_tab(&String::from("0"));
    let before = staff.render();

    let sig_err = staff.set_time_signature((7, 8)).expect_err("tabs freeze the signature");
    assert_eq!(
        "[IE_pr-st-fn(SIG)]: cannot set time signature after tabs have been added.\n",
        sig_err
    );
    let fid_err = staff.set_time_fidelity(2).expect_err("tabs freeze the fidelity");
    assert_eq!(
        "[IE_pr-st-fn(FID)]: cannot set fidelity after tabs have been added.\n",
        fid_err
    );
    let note_err = staff.add_note(String::from("A")).expect_err("tabs freeze the strings");
    assert_eq!(
        "[IE_pr-st-fn(ADN)]: cannot add note after tabs have been added.\n",
        note_err
    );

    assert_eq!(before, staff.render());
}

#[test]
fn well_formed_options_parse_without_errors() {
    let mut options = StaffOptions::new();
    options.set("time=4/4; fidelity=16").expect("well-formed options must parse");
    assert_eq!((4, 4), options.get_time_signature());
    assert_eq!(16, options.get_time_fidelity());

    options.set(" time = 3/8 ; fidelity = 32 ").expect("whitespace is trimmed");
    assert_eq!((3, 8), options.get_time_signature());
    assert_eq!(32, options.get_time_fidelity());
}

#[test]
fn bad_option_values_each_yield_one_error() {
    let mut options = StaffOptions::new();

    let time_err = options.set("time=x/4").expect_err("a non-numeric numerator must fail");
    assert_eq!(1, time_err.matches('\t').count());
    assert!(time_err.contains("beats per measure (numerator)"));
    assert!(time_err.contains("invalid digit found in string"));

    let name_err = options.set("bogus=1").expect_err("an unknown name must fail");
    assert_eq!(1, name_err.matches('\t').count());
    assert_eq!("\tOption \"bogus\" does not exist.\n", name_err);

    let both = options.set("time=x/4; bogus=1").expect_err("both segments must be reported");
    assert_eq!(2, both.matches('\t').count());
    assert!(both.contains("beats per measure (numerator)"));
    assert!(both.contains("\tOption \"bogus\" does not exist.\n"));
}

#[test]
fn option_without_value_is_an_error() {
    let mut options = StaffOptions::new();
    let err = options.set("fidelity").expect_err("a value-less option must fail");
    assert_eq!("\tOption \"fidelity\" has not been set to a value.\n", err);
}

#[test]
fn malformed_time_signature_is_an_error() {
    let mut options = StaffOptions::new();
    let err = options.set("time=44").expect_err("a signature without a slash must fail");
    assert!(err.contains("is improperly formatted"));
    assert_eq!((4, 4), options.get_time_signature());
}

#[test]
fn good_segments_apply_even_beside_bad_ones() {
    let mut options = StaffOptions::new();
    assert!(options.set("fidelity=8; bogus=1").is_err());
    assert_eq!(8, options.get_time_fidelity());
}

#[test]
fn zero_option_values_are_clamped() {
    let mut options = StaffOptions::new();
    options.set("time=0/0; fidelity=0").expect("zeros parse and are clamped");
    assert_eq!((1, 1), options.get_time_signature());
    assert_eq!(1, options.get_time_fidelity());
}

#[test]
fn bad_denominator_is_reported_alone() {
    let mut options = StaffOptions::new();
    let err = options.set("time=4/y").expect_err("a non-numeric denominator must fail");
    assert_eq!(
        "\tCould not parse dominant beat (denominator) \"y\" into a number: invalid digit found in string\n",
        err
    );
}

#[test]
fn both_bad_sides_are_reported_together() {
    let mut options = StaffOptions::new();
    let err = options.set("time=x/y").expect_err("two bad sides must fail");
    assert_eq!(
        "\tCould not parse time signature \"x/y\" into numbers: invalid digit found in string; invalid digit found in string\n",
        err
    );
}

#[test]
fn empty_fidelity_value_names_its_cause() {
    let mut options = StaffOptions::new();
    let err = options.set("fidelity= ").expect_err("an empty value must fail");
    assert_eq!(
        "\tCould not parse beat fidelity \"\" into a number: cannot parse integer from empty string\n",
        err
    );
}
