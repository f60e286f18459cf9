use std::cell::Cell;

use bootstrap::config::{Config, RunMode, Version};

use bootstrap::hub::{
    content_outcome, default_mirror, flist_from_body, flists_from_body, get_outcome, list_outcome,
    manifest_json, mirrors_from_doc, resolved_url, select_mirror, tag_list_outcome, Flist,
    HubError, Kind,
};
use bootstrap::bootstrap::{bins_repo_name, core_artifact_name};
use bootstrap::retry::{execute, OpOutcome, RetryError, RetryPolicy};
use bootstrap::zfs::{FsOp, MountPoller, PollVerdict, TreeEntry, Zfs};

fn taglink(target: Option<&str>) -> Flist {
    Flist {
        kind: Kind::TagLink,
        updated: 0,
        md5: String::new(),
        name: String::from("production"),
        target: target.map(String::from),
        url: String::new(),
    }
}

#[test]
fn taglink_resolves_three_segments() {
    let (repo, tag) = taglink(Some("tf-zos/tags/v3")).tag_link().unwrap();
    assert_eq!(repo, "tf-zos");
    assert_eq!(tag, "v3");
}

#[test]
fn taglink_rejects_other_shapes() {
    assert!(taglink(Some("tf-zos/v3")).tag_link().is_err());
    assert!(taglink(Some("tf-zos/tags/v3/extra")).tag_link().is_err());
    assert!(taglink(Some("/tags/v3")).tag_link().is_err());
    assert!(taglink(Some("tf-zos/tags/")).tag_link().is_err());
    assert!(taglink(Some("tf-zos/nottags/v3")).tag_link().is_err());
    assert!(taglink(None).tag_link().is_err());
    let mut not_link = taglink(Some("tf-zos/tags/v3"));
    not_link.kind = Kind::Regular;
    assert!(not_link.tag_link().is_err());
}

#[test]
fn resolved_urls_take_the_one_form() {
    let u = resolved_url("https://hub.grid.tf", "tf-zos", "zos.flist");
    assert_eq!(u, "https://hub.grid.tf/tf-zos/zos.flist");

    let body = br#"[{"type": "regular", "updated": 10, "md5": "aa", "name": "a.flist", "target": null},
                    {"type": "symlink", "updated": 20, "name": "b.flist", "target": "c.flist"}]"#;
    let v = flists_from_body(body, "https://hub.grid.tf", "azmy").unwrap();
    assert_eq!(v.len(), 2);
    assert_eq!(v[0].url, "https://hub.grid.tf/azmy/a.flist");
    assert_eq!(v[1].url, "https://hub.grid.tf/azmy/b.flist");
    assert_eq!(v[0].md5, "aa");
    assert_eq!(v[1].md5, "");
    assert_eq!(v[1].target.as_deref(), Some("c.flist"));
}

#[test]
fn single_record_resolves_to_requested_name() {
    let body = br#"{"type": "regular", "updated": 5, "md5": "m", "name": "test.flist", "target": null}"#;
    let f = flist_from_body(body, "https://hub.grid.tf", "azmy", "test.flist").unwrap();
    assert_eq!(f.name, "test.flist");
    assert_eq!(f.kind, Kind::Regular);
    assert!(f.url.ends_with("/azmy/test.flist"));
}

#[test]
fn absent_tag_is_an_outcome_not_an_error() {
    let r = tag_list_outcome(404, b"", "https://hub.grid.tf").unwrap();
    assert!(r.is_none());
    assert!(matches!(
        tag_list_outcome(500, b"", "https://hub.grid.tf"),
        Err(HubError::Status(500))
    ));
}

#[test]
fn tag_listing_resolves_targets_and_skips_the_rest() {
    let body = br#"[{"type": "symlink", "updated": 1, "name": "a", "target": "tf-zos/a.flist"},
                    {"type": "symlink", "updated": 2, "name": "b", "target": "tf-zos/b.flist"},
                    {"type": "symlink", "updated": 3, "name": "c", "target": "tf-zos/c.flist"},
                    {"type": "regular", "updated": 4, "name": "d", "target": null}]"#;
    let v = tag_list_outcome(200, body, "https://hub.grid.tf").unwrap().unwrap();
    assert_eq!(v.len(), 4);
    assert_eq!(v[0].url, "https://hub.grid.tf/tf-zos/a.flist");
    assert_eq!(v[1].url, "https://hub.grid.tf/tf-zos/b.flist");
    assert_eq!(v[2].url, "https://hub.grid.tf/tf-zos/c.flist");
    assert_eq!(v[3].url, "");
}

#[test]
fn bounded_retry_performs_exactly_the_cap() {
    let calls = Cell::new(0u64);
    let policy = RetryPolicy { base_ms: 1, max_attempts: Some(3) };
    let r: Result<(), RetryError> = execute(&policy, || {
        calls.set(calls.get() + 1);
        OpOutcome::Retryable(String::from("still failing"))
    });
    assert_eq!(calls.get(), 3);
    match r {
        Err(RetryError::Exhausted { attempts, last }) => {
            assert_eq!(attempts, 3);
            assert_eq!(last, "still failing");
        },
        _ => panic!("expected exhaustion"),
    }
}

#[test]
fn retry_returns_first_success_and_aborts_on_fatal() {
    let calls = Cell::new(0u64);
    let policy = RetryPolicy { base_ms: 1, max_attempts: Some(5) };
    let r = execute(&policy, || {
        calls.set(calls.get() + 1);
        if calls.get() < 3 {
            OpOutcome::Retryable(String::from("not yet"))
        } else {
            OpOutcome::Done(calls.get())
        }
    });
    assert_eq!(r.unwrap(), 3);
    assert_eq!(calls.get(), 3);

    let r: Result<(), RetryError> = execute(&policy, || OpOutcome::Fatal(String::from("no")));
    assert!(matches!(r, Err(RetryError::Aborted(_))));
}

#[test]
fn discovery_failure_falls_back_to_the_default_mirror() {
    let mirrors = mirrors_from_doc(None);
    assert_eq!(mirrors, vec![String::from("https://hub.grid.tf")]);
    assert_eq!(default_mirror(), "https://hub.grid.tf");

    let body = br#"{"flist_url": ["redis://hub.grid.tf:9900", "redis://hub.threefold.me:9900"]}"#;
    let doc = bootstrap::json::doc_object(body).unwrap();
    let mirrors = mirrors_from_doc(Some(&doc));
    assert_eq!(
        mirrors,
        vec![
            String::from("https://hub.grid.tf"),
            String::from("https://hub.threefold.me")
        ]
    );

    let body = br#"{"flist_url": []}"#;
    let doc = bootstrap::json::doc_object(body).unwrap();
    assert_eq!(mirrors_from_doc(Some(&doc)), vec![String::from("https://hub.grid.tf")]);
}

#[test]
fn mount_poll_gives_up_after_ten_probes_and_kills() {
    let mut poller = MountPoller::new();
    let mut waits = Vec::new();
    for probe in 0..10 {
        match poller.on_probe(false) {
            PollVerdict::Wait(d) => waits.push(d),
            PollVerdict::GiveUpKill => {
                assert_eq!(probe, 9, "gave up before the tenth probe");
                assert_eq!(waits, vec![500, 1000, 2000, 4000, 8000, 16000, 32000, 60000, 60000]);
                return;
            },
            PollVerdict::Mounted => panic!("never ready"),
        }
    }
    panic!("poller never gave up");
}

#[test]
fn mount_poll_stops_at_readiness() {
    let mut poller = MountPoller::new();
    assert!(matches!(poller.on_probe(false), PollVerdict::Wait(500)));
    assert!(matches!(poller.on_probe(true), PollVerdict::Mounted));
}

#[test]
fn mount_command_shape() {
    let cmd = bootstrap::zfs::mount_command("backend", "test.flist", "root");
    assert_eq!(
        cmd,
        vec!["g8ufs", "--ro", "--cache", "backend", "--meta", "test.flist", "root"]
    );
    let probe = bootstrap::zfs::probe_command("root");
    assert_eq!(probe, vec!["mountpoint", "-q", "root"]);
}

#[test]
fn materialization_plan_copies_via_partials_and_replaces_links() {
    let vol = Zfs { target: String::from("/mnt/vol"), pid: 7 };
    let entries = vec![
        TreeEntry::Dir { rel: String::from("etc") },
        TreeEntry::File { rel: String::from("etc/app.conf") },
        TreeEntry::Symlink { rel: String::from("etc/link"), target: String::from("/usr/lib/x") },
        TreeEntry::Symlink { rel: String::from("etc/rel"), target: String::from("app.conf") },
        TreeEntry::Other { rel: String::from("etc/fifo") },
    ];
    let plan = vol.copy_plan(&entries, "/dest");
    assert_eq!(plan.len(), 7);
    assert!(matches!(&plan[0], FsOp::MkDirAll { path } if path == "/dest/etc"));
    assert!(
        matches!(&plan[1], FsOp::CopyToTmp { src, tmp }
            if src == "/mnt/vol/etc/app.conf" && tmp == "/dest/etc/app.conf.partial")
    );
    assert!(
        matches!(&plan[2], FsOp::RenameInto { tmp, dst }
            if tmp == "/dest/etc/app.conf.partial" && dst == "/dest/etc/app.conf")
    );
    assert!(matches!(&plan[3], FsOp::RemoveIfThere { path } if path == "/dest/etc/link"));
    assert!(
        matches!(&plan[4], FsOp::MakeLink { target, dst }
            if target == "/dest/usr/lib/x" && dst == "/dest/etc/link")
    );
    assert!(matches!(&plan[5], FsOp::RemoveIfThere { path } if path == "/dest/etc/rel"));
    assert!(
        matches!(&plan[6], FsOp::MakeLink { target, dst }
            if target == "app.conf" && dst == "/dest/etc/rel")
    );

    // Planning is a pure function of the tree: a second walk plans the same
    // steps, so running the plan again rewrites the same contents.
    let again = vol.copy_plan(&entries, "/dest");
    assert_eq!(again.len(), plan.len());

    // Materializing into the root keeps absolute targets as they are.
    assert_eq!(bootstrap::zfs::rewrite_target("/usr/lib/x", "/"), "/usr/lib/x");
    assert_eq!(bootstrap::zfs::rewrite_target("usr/lib/x", "/dest"), "usr/lib/x");
}

#[test]
fn service_names_strip_the_suffix_at_its_last_occurrence() {
    let files = vec![
        String::from("networkd.yaml"),
        String::from("README"),
        String::from("a.yamlb.yaml"),
    ];
    let names = bootstrap::zinit::service_names(&files);
    assert_eq!(names, vec![String::from("networkd"), String::from("a.yamlb")]);
    assert_eq!(bootstrap::zinit::monitor_command("networkd"), vec![
        "zinit", "monitor", "networkd"
    ]);
    assert_eq!(bootstrap::zinit::services_dir("/"), "//etc/zinit");
}

#[test]
fn next_stage_arguments() {
    assert_eq!(
        bootstrap::stage::next_stage_args(1, false).unwrap(),
        vec!["-s", "2"]
    );
    assert_eq!(
        bootstrap::stage::next_stage_args(1, true).unwrap(),
        vec!["-s", "2", "-d"]
    );
    assert!(bootstrap::stage::next_stage_args(2, false).is_none());
    assert_eq!(bootstrap::stage::stage_count(), 2);
}

#[test]
fn descriptors_persist_as_json() {
    let f = Flist {
        kind: Kind::Symlink,
        updated: 42,
        md5: String::from("abc"),
        name: String::from("a \"quoted\" name"),
        target: Some(String::from("b\\c")),
        url: String::from("ignored"),
    };
    assert_eq!(
        f.to_json(),
        r#"{"type":"symlink","updated":42,"md5":"abc","name":"a \"quoted\" name","target":"b\\c"}"#
    );
    let g = Flist { target: None, ..f };
    assert_eq!(
        g.to_json(),
        r#"{"type":"symlink","updated":42,"md5":"abc","name":"a \"quoted\" name","target":null}"#
    );
}

#[test]
fn list_name_selects_the_channel() {
    let cfg = Config { stage: 2, debug: false, runmode: RunMode::Prod, version: Version::V3 };
    assert_eq!(bootstrap::bootstrap::list_name(&cfg), "production");
    let cfg = Config { stage: 2, debug: false, runmode: RunMode::Dev, version: Version::V3Light };
    assert_eq!(bootstrap::bootstrap::list_name(&cfg), "development-v3light");
}

#[test]
fn find_taglink_picks_the_named_link() {
    let lists = vec![
        Flist {
            kind: Kind::Regular,
            updated: 1,
            md5: String::new(),
            name: String::from("production"),
            target: None,
            url: String::new(),
        },
        Flist {
            kind: Kind::TagLink,
            updated: 2,
            md5: String::new(),
            name: String::from("production"),
            target: Some(String::from("tf-zos/tags/v3")),
            url: String::new(),
        },
    ];
    assert_eq!(bootstrap::bootstrap::find_taglink(&lists, "production"), Some(1));
    assert_eq!(bootstrap::bootstrap::find_taglink(&lists, "qa"), None);
}

#[test]
fn non_success_statuses_are_status_errors() {
    let body = br#"[{"type": "regular", "updated": 1, "md5": "a", "name": "x", "target": null}]"#;
    assert!(matches!(
        list_outcome(503, body, "m", "r"),
        Err(HubError::Status(503))
    ));
    let v = list_outcome(200, body, "m", "r").unwrap();
    assert_eq!(v.len(), 1);

    let one = br#"{"type": "regular", "updated": 1, "md5": "a", "name": "x", "target": null}"#;
    assert!(matches!(
        get_outcome(404, one, "m", "r", "x"),
        Err(HubError::Status(404))
    ));
    let f = get_outcome(200, one, "m", "r", "x").unwrap();
    assert_eq!(f.url, "m/r/x");

    assert!(matches!(
        content_outcome(500, vec![1, 2, 3]),
        Err(HubError::Status(500))
    ));
    assert_eq!(content_outcome(204, vec![1, 2, 3]).unwrap(), vec![1, 2, 3]);
}

#[test]
fn mirror_selection_takes_the_first_healthy_else_the_first() {
    let hub = vec![
        String::from("https://a"),
        String::from("https://b"),
        String::from("https://c"),
    ];
    assert_eq!(select_mirror(&hub, &vec![false, true, true]), "https://b");
    assert_eq!(select_mirror(&hub, &vec![true, false, false]), "https://a");
    assert_eq!(select_mirror(&hub, &vec![false, false, false]), "https://a");
}

#[test]
fn legacy_names_and_manifest() {
    assert_eq!(bins_repo_name(&RunMode::Prod), "tf-zos-bins");
    assert_eq!(bins_repo_name(&RunMode::Dev), "tf-zos-bins.development");
    assert_eq!(bins_repo_name(&RunMode::QA), "tf-zos-bins.qa");
    let cfg = Config { stage: 2, debug: false, runmode: RunMode::Test, version: Version::V3 };
    assert_eq!(core_artifact_name(&cfg), "zos:testing.flist");
    let cfg = Config { stage: 2, debug: false, runmode: RunMode::Prod, version: Version::V3Light };
    assert_eq!(core_artifact_name(&cfg), "zos:production-v3light.flist");

    let items = vec![
        Flist {
            kind: Kind::Regular,
            updated: 1,
            md5: String::from("aa"),
            name: String::from("a.flist"),
            target: None,
            url: String::new(),
        },
        Flist {
            kind: Kind::Symlink,
            updated: 2,
            md5: String::from("bb"),
            name: String::from("b.flist"),
            target: Some(String::from("c.flist")),
            url: String::new(),
        },
    ];
    let expected_a = r#"{"a.flist":{"type":"regular","updated":1,"md5":"aa","name":"a.flist","target":null},"#;
    let expected_b = r#""b.flist":{"type":"symlink","updated":2,"md5":"bb","name":"b.flist","target":"c.flist"}}"#;
    let mut expected = String::from(expected_a);
    expected.push_str(expected_b);
    assert_eq!(manifest_json(&items), expected);
    assert_eq!(manifest_json(&Vec::new()), "{}");
}

#[test]
fn poll_mount_returns_once_ready() {
    let calls = Cell::new(0u32);
    let r = bootstrap::zfs::poll_mount(|| {
        calls.set(calls.get() + 1);
        calls.get() >= 2
    });
    assert!(r.is_ok());
    assert_eq!(calls.get(), 2);
}

#[test]
fn malformed_bodies_are_decode_errors() {
    assert!(matches!(
        flists_from_body(b"junk", "m", "r"),
        Err(HubError::Decode)
    ));
    assert!(matches!(
        tag_list_outcome(200, b"[1]", "m"),
        Err(HubError::Decode)
    ));
    assert_eq!(HubError::Status(502).message(), "unexpected response status: 502");
    assert_eq!(HubError::Decode.message(), "malformed response body");
}

#[test]
fn transport_failure_is_a_network_error() {
    let f = Flist {
        kind: Kind::Regular,
        updated: 0,
        md5: String::new(),
        name: String::from("x.flist"),
        target: None,
        url: String::from("http://127.0.0.1:1/x.flist"),
    };
    assert!(matches!(f.download("/tmp/x.partial.none"), Err(HubError::Net(_))));
}

#[test]
fn artifact_urls_join_under_the_endpoint() {
    let hub = bootstrap::info::Hub::new();
    assert_eq!(
        hub.url("tf-bootable/ubuntu.flist").unwrap(),
        "https://hub.grid.tf/tf-bootable/ubuntu.flist"
    );
}

#[test]
fn download_refuses_illegal_kinds() {
    let f = taglink(Some("tf-zos/tags/v3"));
    assert!(matches!(f.download("/tmp/nowhere"), Err(HubError::Contract)));
}

#[test]
fn tag_resolution_feeds_installation_end_to_end() {
    // The repository lists the tag `v3` as a tag-link; resolving it names
    // the bundle repository and tag, whose listing yields three symlink
    // descriptors; each descriptor is planned under the root, and the
    // service files found below it name the services to monitor.
    let link = taglink(Some("tf-zos/tags/v3"));
    let (repo, tag) = link.tag_link().unwrap();
    assert_eq!((repo.as_str(), tag.as_str()), ("tf-zos", "v3"));

    let body = br#"[{"type": "symlink", "updated": 1, "name": "kernel", "target": "tf-zos/kernel.flist"},
                    {"type": "symlink", "updated": 2, "name": "drivers", "target": "tf-zos/drivers.flist"},
                    {"type": "symlink", "updated": 3, "name": "tools", "target": "tf-zos/tools.flist"}]"#;
    let bundle = tag_list_outcome(200, body, "https://hub.grid.tf").unwrap().unwrap();
    assert_eq!(bundle.len(), 3);
    for f in &bundle {
        assert_eq!(f.kind, Kind::Symlink);
        assert!(f.url.starts_with("https://hub.grid.tf/tf-zos/"));
    }

    let vol = Zfs { target: String::from("/mnt/kernel"), pid: 1 };
    let plan = vol.copy_plan(
        &vec![TreeEntry::File { rel: String::from("etc/zinit/networkd.yaml") }],
        "/",
    );
    assert_eq!(plan.len(), 2);

    let services = bootstrap::zinit::service_names(&vec![String::from("networkd.yaml")]);
    assert_eq!(services, vec![String::from("networkd")]);
    assert_eq!(
        bootstrap::zinit::monitor_command(&services[0]),
        vec!["zinit", "monitor", "networkd"]
    );
}
