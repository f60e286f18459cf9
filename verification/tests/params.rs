use bootstrap::args::{args, ArgMap};
use bootstrap::config::{runmode, version, Config, RunMode, Version};
use bootstrap::kparams::parse;

#[test]
fn test_parse() {
    let input: &str = "initrd=initramfs-linux.img version=v3 root=UUID=10f9e7bb-ba63-4fbd-a95e-c78b5496cfbe rootflags=subvol=root rw b43.allhwsupport=1";
    let result = parse(input).unwrap();
    assert_eq!(result.len(), 6);
    assert_eq!(result.get("rw"), Some(None));
    assert_eq!(result.get("version"), Some(Some(String::from("v3"))));
    assert_eq!(result.get("rootflags"), Some(Some(String::from("subvol=root"))));
}

#[test]
fn test_args() {
    let mut a = ArgMap::new();
    a.insert(
        String::from("name"),
        vec![String::from("john"), String::from("smith")],
    );

    assert_eq!(a.last("age"), None);
    assert_eq!(a.last("name"), Some("smith"));
}

#[test]
fn test_args_parse_appends_values() {
    let m = args("name=john name=smith age rw").unwrap();
    assert_eq!(m.last("name"), Some("smith"));
    assert_eq!(m.last("age"), None);
    assert_eq!(m.last("rw"), None);
    assert_eq!(m.last("missing"), None);
}

#[test]
fn test_parse_rejects_unbalanced_quoting() {
    assert!(parse("bad=\"unclosed").is_err());
}

#[test]
fn test_parse_strips_shell_quoting() {
    let p = parse("key=\"a b\" other='c d'").unwrap();
    assert_eq!(p.get("key"), Some(Some(String::from("a b"))));
    assert_eq!(p.get("other"), Some(Some(String::from("c d"))));
}

#[test]
fn test_runmode_defaults_and_errors() {
    let p = parse("").unwrap();
    assert_eq!(runmode(&p).unwrap(), RunMode::Prod);
    assert_eq!(version(&p).unwrap(), Version::V3);
    let p = parse("runmode=dev version=v3light").unwrap();
    assert_eq!(runmode(&p).unwrap(), RunMode::Dev);
    assert_eq!(version(&p).unwrap(), Version::V3Light);
    let p = parse("runmode=weird").unwrap();
    assert!(runmode(&p).is_err());
    let p = parse("runmode").unwrap();
    assert!(runmode(&p).is_err());
    let p = parse("version=weird").unwrap();
    assert!(version(&p).is_err());
    let p = parse("version").unwrap();
    assert_eq!(version(&p).unwrap(), Version::V3);
}

#[test]
fn test_config_assemble() {
    let p = parse("runmode=qa version=v3light").unwrap();
    assert!(Config::assemble(0, false, &p).is_err());
    let c = Config::assemble(1, true, &p).unwrap();
    assert_eq!(c.stage, 1);
    assert!(c.debug);
    let c = Config::assemble(2, false, &p).unwrap();
    assert_eq!(c.version, bootstrap::config::Version::V3Light);
    let bad = parse("runmode=weird").unwrap();
    assert!(Config::assemble(1, false, &bad).is_err());
    let bad = parse("version=weird").unwrap();
    assert!(Config::assemble(2, false, &bad).is_err());
    assert!(Config::assemble(1, false, &bad).is_ok());
}
