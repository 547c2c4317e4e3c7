use gpslog::archive::{
    name_ends_with, select_members, ArchiveError, Members, ACC_SUFFIX, GPS_SUFFIX,
};

fn owned(names: &[&str]) -> Vec<String> {
    names.iter().map(|n| n.to_string()).collect()
}

#[test]
fn suffixes_have_their_values() {
    assert_eq!(GPS_SUFFIX, ".gps");
    assert_eq!(ACC_SUFFIX, ".acc");
}

#[test]
fn name_ends_with_agrees_with_std() {
    for (name, suffix) in [
        ("track.gps", ".gps"),
        ("track.gps", ".acc"),
        (".gps", ".gps"),
        ("gps", ".gps"),
        ("", ".gps"),
        ("", ""),
        ("x", ""),
        ("track.gpsx", ".gps"),
        ("track.GPS", ".gps"),
        ("trackägps", "ägps"),
        ("a.gps.acc", ".acc"),
    ] {
        assert_eq!(name_ends_with(name, suffix), name.ends_with(suffix), "{:?} {:?}", name, suffix);
    }
}

#[test]
fn selects_both_members() {
    assert_eq!(
        select_members(&owned(&["ride.gps", "ride.acc"])),
        Ok(Members { gps: "ride.gps".to_string(), acc: "ride.acc".to_string() })
    );
    assert_eq!(
        select_members(&owned(&["b.acc", "a.gps"])),
        Ok(Members { gps: "a.gps".to_string(), acc: "b.acc".to_string() })
    );
}

#[test]
fn last_of_several_alike_counts() {
    assert_eq!(
        select_members(&owned(&["1.gps", "1.acc", "2.gps", "2.acc", "3.gps"])),
        Ok(Members { gps: "3.gps".to_string(), acc: "2.acc".to_string() })
    );
}

#[test]
fn unrecognized_name_is_an_error() {
    let error = select_members(&owned(&["ride.gps", "notes.txt", "ride.acc", "more.txt"]))
        .unwrap_err();
    assert_eq!(error, ArchiveError::Unrecognized("notes.txt".to_string()));
    assert_eq!(error.message(), "unrecognized filename notes.txt in input archive");
    assert_eq!(
        select_members(&owned(&["notes.txt"])),
        Err(ArchiveError::Unrecognized("notes.txt".to_string()))
    );
    assert_eq!(
        select_members(&owned(&["ride.GPS", "ride.acc"])),
        Err(ArchiveError::Unrecognized("ride.GPS".to_string()))
    );
}

#[test]
fn missing_member_is_an_error() {
    let error = select_members(&owned(&["ride.acc"])).unwrap_err();
    assert_eq!(error, ArchiveError::MissingGps);
    assert_eq!(error.message(), "missing a .gps file in archive");
    let error = select_members(&owned(&["ride.gps"])).unwrap_err();
    assert_eq!(error, ArchiveError::MissingAcc);
    assert_eq!(error.message(), "missing a .acc file in archive");
    assert_eq!(select_members(&Vec::new()), Err(ArchiveError::MissingGps));
}
