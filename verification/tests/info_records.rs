use bootstrap::info::Info;
use semver::Version;

#[test]
fn test_info_unknown() {
    let info = Info {
        md5: String::from("xxx"),
        name: String::from("unversioned.flist"),
        target: String::from(""),
        kind: String::from("regular"),
        size: 0,
        updated: 0,
    };

    assert_eq!(info.version(), None);
}

#[test]
fn test_info_regular() {
    let info = Info {
        md5: String::from("xxx"),
        name: String::from("versioned:1.2.3.flist"),
        target: String::from(""),
        kind: String::from("regular"),
        size: 0,
        updated: 0,
    };

    assert_eq!(info.version(), Some(Version::parse("1.2.3").unwrap()));
}

#[test]
fn test_info_symlink() {
    let info = Info {
        md5: String::from("xxx"),
        name: String::from("versioned:latest.flist"),
        target: String::from("versioned:1.2.3.flist"),
        kind: String::from("symlink"),
        size: 0,
        updated: 0,
    };

    assert_eq!(info.version(), Some(Version::parse("1.2.3").unwrap()));
}

#[test]
fn test_info_from_record_body() {
    let body = br#"{"md5": "abc", "name": "versioned:2.0.0.flist", "size": 7, "type": "regular", "target": "", "updated": 11}"#;
    let fields = bootstrap::json::doc_object(body).unwrap();
    let scalars = bootstrap::hub::sc_fields(&fields);
    let info = bootstrap::info::info_from_fields(&scalars).unwrap();
    assert_eq!(info.name, "versioned:2.0.0.flist");
    assert_eq!(info.size, 7);
    assert_eq!(info.version(), Some(Version::parse("2.0.0").unwrap()));
}
