use twba_uploader::errors::UploaderError;
use twba_uploader::parts::{get_part_files, get_part_number_from_path};

#[test]
fn part_number_from_simple_name() {
    assert_eq!(4, get_part_number_from_path("3.mp4").unwrap());
    assert_eq!(1, get_part_number_from_path("0.mp4").unwrap());
    assert_eq!(13, get_part_number_from_path("12.mp4").unwrap());
}

#[test]
fn part_number_accepts_leading_plus() {
    assert_eq!(3, get_part_number_from_path("+2.mp4").unwrap());
}

#[test]
fn part_number_wrong_extension() {
    assert!(matches!(
        get_part_number_from_path("3.avi"),
        Err(UploaderError::WrongFileExtension)
    ));
    assert!(matches!(
        get_part_number_from_path("noextension"),
        Err(UploaderError::WrongFileExtension)
    ));
    assert!(matches!(
        get_part_number_from_path(".mp4"),
        Err(UploaderError::WrongFileExtension)
    ));
}

#[test]
fn part_number_bad_stem() {
    assert!(matches!(
        get_part_number_from_path("intro.mp4"),
        Err(UploaderError::ParsePartNumber)
    ));
    assert!(matches!(
        get_part_number_from_path("1a.mp4"),
        Err(UploaderError::ParsePartNumber)
    ));
    assert!(matches!(
        get_part_number_from_path("99999999999999999999999999.mp4"),
        Err(UploaderError::ParsePartNumber)
    ));
}

#[test]
fn part_files_sorted_ascending() {
    let names = vec![
        Some("2.mp4".to_string()),
        Some("0.mp4".to_string()),
        Some("1.mp4".to_string()),
    ];
    let parts = get_part_files(names, 3).unwrap();
    assert_eq!(
        vec![
            ("0.mp4".to_string(), 1),
            ("1.mp4".to_string(), 2),
            ("2.mp4".to_string(), 3)
        ],
        parts
    );
}

#[test]
fn part_files_count_mismatch() {
    // Three valid segment files against a declared count of four must
    // fail before anything else happens.
    let names = vec![
        Some("0.mp4".to_string()),
        Some("1.mp4".to_string()),
        Some("2.mp4".to_string()),
    ];
    let r = get_part_files(names, 4);
    assert!(matches!(r, Err(UploaderError::PartCountMismatch(4, 3))));
}

#[test]
fn part_files_repeated_ordinal() {
    // "0.mp4" and "+0.mp4" both name part 1: the listing holds two
    // entries but only one distinct part.
    let names = vec![Some("0.mp4".to_string()), Some("+0.mp4".to_string())];
    let r = get_part_files(names, 2);
    assert!(matches!(r, Err(UploaderError::PartCountMismatch(2, 1))));
}

#[test]
fn part_files_unreadable_name() {
    let names = vec![Some("0.mp4".to_string()), None];
    let r = get_part_files(names, 2);
    assert!(matches!(r, Err(UploaderError::ConvertPathToString)));
}

#[test]
fn part_files_first_error_wins() {
    let names = vec![
        Some("0.mp4".to_string()),
        Some("bad.mp4".to_string()),
        Some("wrong.avi".to_string()),
    ];
    let r = get_part_files(names, 3);
    assert!(matches!(r, Err(UploaderError::ParsePartNumber)));
}
