use bootstrap::disks::{devices_from_listing, flatten_kept, select_empty, DiskManager};

const TEST_OUTPUT: &'static str = r#"{
   "blockdevices": [
      {"name": "sda", "kname": "sda", "maj:min": "8:0", "fstype": null, "mountpoint": null, "label": null, "uuid": null, "parttype": null, "partlabel": null, "partuuid": null, "partflags": null, "ra": "128", "ro": "0", "rm": "0", "hotplug": "0", "model": "QEMU HARDDISK   ", "serial": null, "size": "528482304", "state": "running", "owner": "root", "group": "disk", "mode": "brw-rw----", "alignment": "0", "min-io": "512", "opt-io": "0", "phy-sec": "512", "log-sec": "512", "rota": "1", "sched": "cfq", "rq-size": "128", "type": "disk", "disc-aln": "0", "disc-gran": "512", "disc-max": "2147450880", "disc-zero": "0", "wsame": "0", "wwn": null, "rand": "1", "pkname": null, "hctl": "0:0:0:0", "tran": "ata", "subsystems": "block:scsi:pci", "rev": "2.5+", "vendor": "ATA     ",
         "children": [
            {"name": "sda1", "kname": "sda1", "maj:min": "8:1", "fstype": null, "mountpoint": null, "label": null, "uuid": null, "parttype": null, "partlabel": null, "partuuid": null, "partflags": null, "ra": "128", "ro": "0", "rm": "0", "hotplug": "0", "model": null, "serial": null, "size": "528450048", "state": null, "owner": "root", "group": "disk", "mode": "brw-rw----", "alignment": "0", "min-io": "512", "opt-io": "0", "phy-sec": "512", "log-sec": "512", "rota": "1", "sched": "cfq", "rq-size": "128", "type": "part", "disc-aln": "0", "disc-gran": "512", "disc-max": "2147450880", "disc-zero": "0", "wsame": "0", "wwn": null, "rand": "1", "pkname": "sda", "hctl": null, "tran": null, "subsystems": "block:scsi:pci", "rev": null, "vendor": null}
         ]
      },
      {"name": "vda", "kname": "vda", "maj:min": "254:0", "fstype": null, "mountpoint": null, "label": null, "uuid": null, "parttype": null, "partlabel": null, "partuuid": null, "partflags": null, "ra": "128", "ro": "0", "rm": "0", "hotplug": "0", "model": null, "serial": null, "size": "53687091200", "state": null, "owner": "root", "group": "disk", "mode": "brw-rw----", "alignment": "0", "min-io": "512", "opt-io": "0", "phy-sec": "512", "log-sec": "512", "rota": "1", "sched": "mq-deadline", "rq-size": "256", "type": "disk", "disc-aln": "0", "disc-gran": "0", "disc-max": "0", "disc-zero": "0", "wsame": "0", "wwn": null, "rand": "0", "pkname": null, "hctl": null, "tran": null, "subsystems": "block:virtio:pci", "rev": null, "vendor": "0x1af4"},
      {"name": "vdb", "kname": "vdb", "maj:min": "254:16", "fstype": null, "mountpoint": null, "label": null, "uuid": null, "parttype": null, "partlabel": null, "partuuid": null, "partflags": null, "ra": "128", "ro": "0", "rm": "0", "hotplug": "0", "model": null, "serial": null, "size": "53687091200", "state": null, "owner": "root", "group": "disk", "mode": "brw-rw----", "alignment": "0", "min-io": "512", "opt-io": "0", "phy-sec": "512", "log-sec": "512", "rota": "1", "sched": "mq-deadline", "rq-size": "256", "type": "disk", "disc-aln": "0", "disc-gran": "0", "disc-max": "0", "disc-zero": "0", "wsame": "0", "wwn": null, "rand": "0", "pkname": null, "hctl": null, "tran": null, "subsystems": "block:virtio:pci", "rev": null, "vendor": "0x1af4"},
      {"name": "vdc", "kname": "vdc", "maj:min": "254:32", "fstype": null, "mountpoint": null, "label": null, "uuid": null, "parttype": null, "partlabel": null, "partuuid": null, "partflags": null, "ra": "128", "ro": "0", "rm": "0", "hotplug": "0", "model": null, "serial": null, "size": "53687091200", "state": null, "owner": "root", "group": "disk", "mode": "brw-rw----", "alignment": "0", "min-io": "512", "opt-io": "0", "phy-sec": "512", "log-sec": "512", "rota": "1", "sched": "mq-deadline", "rq-size": "256", "type": "disk", "disc-aln": "0", "disc-gran": "0", "disc-max": "0", "disc-zero": "0", "wsame": "0", "wwn": null, "rand": "0", "pkname": null, "hctl": null, "tran": null, "subsystems": "block:virtio:pci", "rev": null, "vendor": "0x1af4"},
      {"name": "vdd", "kname": "vdd", "maj:min": "254:48", "fstype": null, "mountpoint": null, "label": null, "uuid": null, "parttype": null, "partlabel": null, "partuuid": null, "partflags": null, "ra": "128", "ro": "0", "rm": "0", "hotplug": "0", "model": null, "serial": null, "size": "53687091200", "state": null, "owner": "root", "group": "disk", "mode": "brw-rw----", "alignment": "0", "min-io": "512", "opt-io": "0", "phy-sec": "512", "log-sec": "512", "rota": "1", "sched": "mq-deadline", "rq-size": "256", "type": "disk", "disc-aln": "0", "disc-gran": "0", "disc-max": "0", "disc-zero": "0", "wsame": "0", "wwn": null, "rand": "0", "pkname": null, "hctl": null, "tran": null, "subsystems": "block:virtio:pci", "rev": null, "vendor": "0x1af4"},
      {"name": "vde", "kname": "vde", "maj:min": "254:64", "fstype": null, "mountpoint": null, "label": null, "uuid": null, "parttype": null, "partlabel": null, "partuuid": null, "partflags": null, "ra": "128", "ro": "0", "rm": "0", "hotplug": "0", "model": null, "serial": null, "size": "53687091200", "state": null, "owner": "root", "group": "disk", "mode": "brw-rw----", "alignment": "0", "min-io": "512", "opt-io": "0", "phy-sec": "512", "log-sec": "512", "rota": "1", "sched": "mq-deadline", "rq-size": "256", "type": "disk", "disc-aln": "0", "disc-gran": "0", "disc-max": "0", "disc-zero": "0", "wsame": "0", "wwn": null, "rand": "0", "pkname": null, "hctl": null, "tran": null, "subsystems": "block:virtio:pci", "rev": null, "vendor": "0x1af4"}
   ]
}"#;

#[test]
fn parse_lsblk_output() {
    let _ = devices_from_listing(TEST_OUTPUT.as_bytes()).expect("Failed to interpret lsblk output");
}

#[test]
fn listing_keeps_devices_and_children() {
    let devices = devices_from_listing(TEST_OUTPUT.as_bytes()).unwrap();
    assert_eq!(devices.len(), 6);
    assert_eq!(devices[0].node_info.name, "sda");
    assert_eq!(devices[0].node_info.node_type, "disk");
    let children = devices[0].children.as_ref().unwrap();
    assert_eq!(children.len(), 1);
    assert_eq!(children[0].node_info.name, "sda1");
    assert_eq!(children[0].node_info.node_type, "part");
    assert!(devices[1].children.is_none());
}

#[test]
fn listing_flattens_kept_disks_then_children() {
    let devices = devices_from_listing(TEST_OUTPUT.as_bytes()).unwrap();
    let nodes = flatten_kept(devices);
    assert_eq!(nodes.len(), 7);
    assert_eq!(nodes[0].name, "sda");
    assert_eq!(nodes[1].name, "sda1");
    assert_eq!(nodes[2].name, "vda");
}

#[test]
fn the_first_empty_kept_disk_is_selected() {
    let devices = devices_from_listing(TEST_OUTPUT.as_bytes()).unwrap();
    // sda carries a partition-type child; vda is the first empty disk
    assert_eq!(select_empty(&devices), Some(1));
}

#[test]
fn free_nodes_have_no_filesystem_or_table() {
    let devices = devices_from_listing(TEST_OUTPUT.as_bytes()).unwrap();
    let nodes = flatten_kept(devices);
    let dm = DiskManager { device_nodes: nodes };
    let free = dm.list_free_nodes();
    // every node in the sample lacks a filesystem and a partition table
    assert_eq!(free.len(), 7);
    assert_eq!(free[0].name, "sda");
    assert_eq!(free[1].name, "sda1");
}
