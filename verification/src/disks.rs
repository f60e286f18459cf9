//! The disk manager: reads the device listing, keeps the nodes worth
//! managing, finds free nodes and empty disks, and brings the cache
//! filesystem up through the executor.

use vstd::prelude::*;

use crate::executor::{Error, Executor};
use crate::json;
use crate::json::{FieldVal, FieldValV, Scalar, ScalarV};
use crate::strutil;

verus! {

/// One block-device node of the listing.
pub struct Node {
    pub name: String,
    pub kname: String,
    pub path: String,
    pub maj_min: String,
    pub fsavail: Option<String>,
    pub fssize: Option<String>,
    pub fstype: Option<String>,
    pub fsused: Option<String>,
    pub fsuse: Option<String>,
    pub mountpoint: Option<String>,
    pub label: Option<String>,
    pub uuid: Option<String>,
    pub ptuuid: Option<String>,
    pub pttype: Option<String>,
    pub parttype: Option<String>,
    pub partlabel: Option<String>,
    pub partuuid: Option<String>,
    pub partflags: Option<String>,
    pub node_type: String,
    pub subsystems: String,
}

/// A device object of the listing: the node itself and its child nodes.
pub struct Blockdevice {
    pub node_info: Node,
    pub children: Option<Vec<Partition>>,
}

/// A child node.
pub struct Partition {
    pub node_info: Node,
}

/// A string field that may be absent or null; ill-typed values refuse the
/// whole node.
pub open spec fn spec_opt_str(fs: Seq<(Seq<char>, ScalarV)>, key: Seq<char>) -> Option<
    Option<Seq<char>>,
> {
    match json::spec_lookup(fs, key) {
        None => Some(Option::<Seq<char>>::None),
        Some(ScalarV::Null) => Some(Option::<Seq<char>>::None),
        Some(ScalarV::Str(s)) => Some(Some(s)),
        _ => None,
    }
}

/// A string field that must be present.
pub open spec fn spec_req_str(fs: Seq<(Seq<char>, ScalarV)>, key: Seq<char>) -> Option<Seq<char>> {
    match json::spec_lookup(fs, key) {
        Some(ScalarV::Str(s)) => Some(s),
        _ => None,
    }
}

/// Whether `o` allows exactly the optional string `v`.
pub open spec fn opt_match(o: Option<Option<Seq<char>>>, v: Option<String>) -> bool {
    match o {
        Some(x) => match (x, v) {
            (Some(a), Some(b)) => a == b@,
            (None, None) => true,
            _ => false,
        },
        None => false,
    }
}

fn opt_str(fs: &Vec<(String, Scalar)>, key: &str) -> (r: Option<Option<String>>)
    ensures
        match r {
            Some(v) => opt_match(spec_opt_str(json::fields_view(fs@), key@), v),
            None => spec_opt_str(json::fields_view(fs@), key@) is None,
        },
{
    match json::lookup_idx(fs, key) {
        None => Some(None),
        Some(ix) => match &fs[ix].1 {
            Scalar::Null => Some(None),
            Scalar::Str(s) => Some(Some(s.clone())),
            _ => None,
        },
    }
}

fn req_str(fs: &Vec<(String, Scalar)>, key: &str) -> (r: Option<String>)
    ensures
        match r {
            Some(v) => spec_req_str(json::fields_view(fs@), key@) == Some(v@),
            None => spec_req_str(json::fields_view(fs@), key@) is None,
        },
{
    match json::lookup_idx(fs, key) {
        None => None,
        Some(ix) => match &fs[ix].1 {
            Scalar::Str(s) => Some(s.clone()),
            _ => None,
        },
    }
}

/// Whether an object of scalar fields carries a well-formed node: the
/// identifying fields are strings, the filesystem and partition fields are
/// strings or absent, and the path defaults to empty.
pub open spec fn spec_node_ok(fs: Seq<(Seq<char>, ScalarV)>) -> bool {
    &&& spec_req_str(fs, "name"@) is Some
    &&& spec_req_str(fs, "kname"@) is Some
    &&& spec_req_str(fs, "maj:min"@) is Some
    &&& spec_req_str(fs, "type"@) is Some
    &&& spec_req_str(fs, "subsystems"@) is Some
    &&& spec_opt_str(fs, "path"@) is Some
    &&& spec_opt_str(fs, "fsavail"@) is Some
    &&& spec_opt_str(fs, "fssize"@) is Some
    &&& spec_opt_str(fs, "fstype"@) is Some
    &&& spec_opt_str(fs, "fsused"@) is Some
    &&& spec_opt_str(fs, "fsuse%"@) is Some
    &&& spec_opt_str(fs, "mountpoint"@) is Some
    &&& spec_opt_str(fs, "label"@) is Some
    &&& spec_opt_str(fs, "uuid"@) is Some
    &&& spec_opt_str(fs, "ptuuid"@) is Some
    &&& spec_opt_str(fs, "pttype"@) is Some
    &&& spec_opt_str(fs, "parttype"@) is Some
    &&& spec_opt_str(fs, "partlabel"@) is Some
    &&& spec_opt_str(fs, "partuuid"@) is Some
    &&& spec_opt_str(fs, "partflags"@) is Some
}

/// Builds the node an object of scalar fields describes; succeeds exactly
/// when the object is well-formed, and then every field is the one looked
/// up, the path empty when absent.
pub fn node_from_fields(fs: &Vec<(String, Scalar)>) -> (r: Option<Node>)
    ensures
        r is Some <==> spec_node_ok(json::fields_view(fs@)),
        r matches Some(n) ==> ({
            let fsv = json::fields_view(fs@);
            &&& spec_req_str(fsv, "name"@) == Some(n.name@)
            &&& spec_req_str(fsv, "kname"@) == Some(n.kname@)
            &&& spec_req_str(fsv, "maj:min"@) == Some(n.maj_min@)
            &&& spec_req_str(fsv, "type"@) == Some(n.node_type@)
            &&& spec_req_str(fsv, "subsystems"@) == Some(n.subsystems@)
            &&& (match spec_opt_str(fsv, "path"@) {
                Some(Some(p)) => n.path@ == p,
                Some(None) => n.path@ == Seq::<char>::empty(),
                None => false,
            })
            &&& opt_match(spec_opt_str(fsv, "fsavail"@), n.fsavail)
            &&& opt_match(spec_opt_str(fsv, "fssize"@), n.fssize)
            &&& opt_match(spec_opt_str(fsv, "fstype"@), n.fstype)
            &&& opt_match(spec_opt_str(fsv, "fsused"@), n.fsused)
            &&& opt_match(spec_opt_str(fsv, "fsuse%"@), n.fsuse)
            &&& opt_match(spec_opt_str(fsv, "mountpoint"@), n.mountpoint)
            &&& opt_match(spec_opt_str(fsv, "label"@), n.label)
            &&& opt_match(spec_opt_str(fsv, "uuid"@), n.uuid)
            &&& opt_match(spec_opt_str(fsv, "ptuuid"@), n.ptuuid)
            &&& opt_match(spec_opt_str(fsv, "pttype"@), n.pttype)
            &&& opt_match(spec_opt_str(fsv, "parttype"@), n.parttype)
            &&& opt_match(spec_opt_str(fsv, "partlabel"@), n.partlabel)
            &&& opt_match(spec_opt_str(fsv, "partuuid"@), n.partuuid)
            &&& opt_match(spec_opt_str(fsv, "partflags"@), n.partflags)
        }),
{
    let name = match req_str(fs, "name") {
        Some(v) => v,
        None => {
            return None;
        },
    };
    let kname = match req_str(fs, "kname") {
        Some(v) => v,
        None => {
            return None;
        },
    };
    let maj_min = match req_str(fs, "maj:min") {
        Some(v) => v,
        None => {
            return None;
        },
    };
    let node_type = match req_str(fs, "type") {
        Some(v) => v,
        None => {
            return None;
        },
    };
    let subsystems = match req_str(fs, "subsystems") {
        Some(v) => v,
        None => {
            return None;
        },
    };
    let path = match opt_str(fs, "path") {
        Some(Some(v)) => v,
        Some(None) => String::new(),
        None => {
            return None;
        },
    };
    let fsavail = match opt_str(fs, "fsavail") {
        Some(v) => v,
        None => {
            return None;
        },
    };
    let fssize = match opt_str(fs, "fssize") {
        Some(v) => v,
        None => {
            return None;
        },
    };
    let fstype = match opt_str(fs, "fstype") {
        Some(v) => v,
        None => {
            return None;
        },
    };
    let fsused = match opt_str(fs, "fsused") {
        Some(v) => v,
        None => {
            return None;
        },
    };
    let fsuse = match opt_str(fs, "fsuse%") {
        Some(v) => v,
        None => {
            return None;
        },
    };
    let mountpoint = match opt_str(fs, "mountpoint") {
        Some(v) => v,
        None => {
            return None;
        },
    };
    let label = match opt_str(fs, "label") {
        Some(v) => v,
        None => {
            return None;
        },
    };
    let uuid = match opt_str(fs, "uuid") {
        Some(v) => v,
        None => {
            return None;
        },
    };
    let ptuuid = match opt_str(fs, "ptuuid") {
        Some(v) => v,
        None => {
            return None;
        },
    };
    let pttype = match opt_str(fs, "pttype") {
        Some(v) => v,
        None => {
            return None;
        },
    };
    let parttype = match opt_str(fs, "parttype") {
        Some(v) => v,
        None => {
            return None;
        },
    };
    let partlabel = match opt_str(fs, "partlabel") {
        Some(v) => v,
        None => {
            return None;
        },
    };
    let partuuid = match opt_str(fs, "partuuid") {
        Some(v) => v,
        None => {
            return None;
        },
    };
    let partflags = match opt_str(fs, "partflags") {
        Some(v) => v,
        None => {
            return None;
        },
    };
    Some(
        Node {
            name,
            kname,
            path,
            maj_min,
            fsavail,
            fssize,
            fstype,
            fsused,
            fsuse,
            mountpoint,
            label,
            uuid,
            ptuuid,
            pttype,
            parttype,
            partlabel,
            partuuid,
            partflags,
            node_type,
            subsystems,
        },
    )
}

/// Whether a listed disk is kept: neither a USB device, a CD drive, nor a
/// floppy-style platform device.
pub open spec fn spec_keep_device(n: Node) -> bool {
    &&& n.subsystems@ != "block:scsi:usb:pci"@
    &&& n.node_type@ != "rom"@
    &&& n.subsystems@ != "block:platform"@
}

fn keep_device(n: &Node) -> (r: bool)
    ensures
        r == spec_keep_device(*n),
{
    !strutil::str_eq(n.subsystems.as_str(), "block:scsi:usb:pci") && !strutil::str_eq(
        n.node_type.as_str(),
        "rom",
    ) && !strutil::str_eq(n.subsystems.as_str(), "block:platform")
}

/// The children objects of a device, empty when the field is absent or an
/// empty array; an ill-shaped field refuses the device.
pub open spec fn spec_children(dev: Seq<(Seq<char>, FieldValV)>) -> Option<
    Seq<Seq<(Seq<char>, ScalarV)>>,
> {
    match json::spec_doc_lookup(dev, "children"@) {
        None => Some(Seq::empty()),
        Some(FieldValV::Objs(cs)) => Some(cs),
        Some(FieldValV::Strs(e)) => if e.len() == 0 {
            Some(Seq::empty())
        } else {
            None
        },
        _ => None,
    }
}

/// The device listing decoded with its structure kept: every device object
/// becomes a node with its child nodes; nothing is filtered here.
pub fn devices_from_listing(body: &[u8]) -> (r: Result<Vec<Blockdevice>, Error>)
    requires
        body@.len() < usize::MAX,
    ensures
        r is Ok ==> json::spec_listing_doc(body@) is Some,
{
    let devices = match json::listing_doc(body) {
        Some(d) => d,
        None => {
            return Err(Error::IOError("failed to interpret the listing".to_owned()));
        },
    };
    let mut out: Vec<Blockdevice> = Vec::new();
    let mut i: usize = 0;
    while i < devices.len()
        decreases devices@.len() - i,
    {
        let dev = &devices[i];
        let scalars = crate::hub::sc_fields(dev);
        let node_info = match node_from_fields(&scalars) {
            Some(n) => n,
            None => {
                return Err(
                    Error::IOError("failed to interpret the listing".to_owned()),
                );
            },
        };
        let children: Option<Vec<Partition>> = match json::doc_lookup_idx(dev, "children") {
            None => None,
            Some(cx) => match &dev[cx].1 {
                FieldVal::Objs(cs) => {
                    let mut parts: Vec<Partition> = Vec::new();
                    let mut k: usize = 0;
                    while k < cs.len()
                        decreases cs@.len() - k,
                    {
                        match node_from_fields(&cs[k]) {
                            Some(c) => parts.push(Partition { node_info: c }),
                            None => {
                                return Err(
                                    Error::IOError(
                                        "failed to interpret the listing".to_owned(),
                                    ),
                                );
                            },
                        }
                        k = k + 1;
                    }
                    Some(parts)
                },
                FieldVal::Strs(empty) => {
                    if empty.len() > 0 {
                        return Err(
                            Error::IOError("failed to interpret the listing".to_owned()),
                        );
                    }
                    Some(Vec::new())
                },
                _ => {
                    return Err(
                        Error::IOError("failed to interpret the listing".to_owned()),
                    );
                },
            },
        };
        out.push(Blockdevice { node_info, children });
        i = i + 1;
    }
    Ok(out)
}

/// The nodes a device's children contribute, in order.
pub open spec fn spec_children_nodes(c: Option<Vec<Partition>>) -> Seq<Node> {
    match c {
        None => Seq::empty(),
        Some(ps) => ps@.map_values(|p: Partition| p.node_info),
    }
}

/// The kept devices' nodes, each followed by its child nodes, in listing
/// order; excluded devices contribute nothing, children and all.
pub open spec fn spec_flatten_kept(ds: Seq<Blockdevice>) -> Seq<Node>
    decreases ds.len(),
{
    if ds.len() == 0 {
        Seq::empty()
    } else {
        let rest = spec_flatten_kept(ds.drop_first());
        if spec_keep_device(ds[0].node_info) {
            seq![ds[0].node_info] + spec_children_nodes(ds[0].children) + rest
        } else {
            rest
        }
    }
}

/// Flattens a decoded listing, exactly as [`spec_flatten_kept`] lays it out.
pub fn flatten_kept(devices: Vec<Blockdevice>) -> (r: Vec<Node>)
    ensures
        r@ == spec_flatten_kept(devices@),
{
    let ghost orig = devices@;
    let mut devices = devices;
    let mut nodes: Vec<Node> = Vec::new();
    proof {
        assert(nodes@ + spec_flatten_kept(devices@) =~= spec_flatten_kept(orig));
    }
    while devices.len() > 0
        invariant
            nodes@ + spec_flatten_kept(devices@) == spec_flatten_kept(orig),
        decreases devices@.len(),
    {
        let ghost pre_devices = devices@;
        let ghost pre_nodes = nodes@;
        let dev = devices.remove(0);
        proof {
            assert(devices@ =~= pre_devices.drop_first());
        }
        if keep_device(&dev.node_info) {
            nodes.push(dev.node_info);
            let ghost cn = spec_children_nodes(dev.children);
            let ghost base = nodes@;
            match dev.children {
                Some(parts) => {
                    let mut parts = parts;
                    proof {
                        assert(parts@.map_values(|p: Partition| p.node_info) == cn);
                    }
                    while parts.len() > 0
                        invariant
                            nodes@ + parts@.map_values(|p: Partition| p.node_info) == base + cn,
                        decreases parts@.len(),
                    {
                        let ghost pre_parts = parts@;
                        let ghost pn = nodes@;
                        let p = parts.remove(0);
                        nodes.push(p.node_info);
                        proof {
                            assert(parts@ =~= pre_parts.drop_first());
                            assert(pre_parts.map_values(|p: Partition| p.node_info)[0]
                                == p.node_info);
                            assert(pre_parts.map_values(|p: Partition| p.node_info).drop_first()
                                =~= parts@.map_values(|p: Partition| p.node_info));
                            assert(nodes@ + parts@.map_values(|p: Partition| p.node_info) =~= pn
                                + pre_parts.map_values(|p: Partition| p.node_info));
                        }
                    }
                    proof {
                        assert(parts@.map_values(|p: Partition| p.node_info) =~= Seq::<
                            Node,
                        >::empty());
                        assert(nodes@ =~= base + cn);
                    }
                },
                None => {
                    proof {
                        assert(cn =~= Seq::<Node>::empty());
                        assert(nodes@ =~= base + cn);
                    }
                },
            }
            proof {
                assert(nodes@ =~= (pre_nodes + seq![pre_devices[0].node_info]) + spec_children_nodes(
                    pre_devices[0].children,
                ));
                assert(nodes@ + spec_flatten_kept(devices@) =~= pre_nodes + spec_flatten_kept(
                    pre_devices,
                ));
            }
        } else {
            proof {
                assert(nodes@ + spec_flatten_kept(devices@) =~= pre_nodes + spec_flatten_kept(
                    pre_devices,
                ));
            }
        }
    }
    proof {
        assert(spec_flatten_kept(devices@) =~= Seq::<Node>::empty());
        assert(nodes@ =~= spec_flatten_kept(orig));
    }
    nodes
}

/// Whether a kept disk counts as empty: it has no children at all, or none
/// of its children is of partition type.
pub open spec fn spec_disk_empty(d: Blockdevice) -> bool {
    match d.children {
        None => true,
        Some(ps) => forall|j: int|
            0 <= j < ps@.len() ==> (#[trigger] ps@[j]).node_info.node_type@ != "part"@,
    }
}

/// The first kept, empty disk of a decoded listing.
pub open spec fn spec_first_empty(ds: Seq<Blockdevice>) -> Option<int>
    decreases ds.len(),
{
    if ds.len() == 0 {
        None
    } else if spec_keep_device(ds[0].node_info) && spec_disk_empty(ds[0]) {
        Some(0int)
    } else {
        match spec_first_empty(ds.drop_first()) {
            Some(i) => Some(i + 1),
            None => None,
        }
    }
}

/// A found index is in range, kept and empty, and the first such; when none
/// is found, no kept device is empty.
proof fn lemma_first_empty(ds: Seq<Blockdevice>)
    ensures
        spec_first_empty(ds) matches Some(i) ==> 0 <= i < ds.len() && spec_keep_device(
            ds[i].node_info,
        ) && spec_disk_empty(ds[i]) && (forall|j: int|
            0 <= j < i ==> !(spec_keep_device((#[trigger] ds[j]).node_info) && spec_disk_empty(
                ds[j],
            ))),
        spec_first_empty(ds) is None ==> forall|j: int|
            0 <= j < ds.len() ==> !(spec_keep_device((#[trigger] ds[j]).node_info)
                && spec_disk_empty(ds[j])),
    decreases ds.len(),
{
    if ds.len() > 0 && !(spec_keep_device(ds[0].node_info) && spec_disk_empty(ds[0])) {
        lemma_first_empty(ds.drop_first());
        assert(forall|j: int| 0 < j < ds.len() ==> ds[j] == ds.drop_first()[j - 1]);
    }
}

/// Where the first kept, empty disk stands, exactly as [`spec_first_empty`]
/// finds it.
pub fn select_empty(devices: &Vec<Blockdevice>) -> (r: Option<usize>)
    ensures
        match r {
            Some(i) => i < devices@.len() && spec_first_empty(devices@) == Some(i as int),
            None => spec_first_empty(devices@) is None,
        },
{
    proof {
        lemma_first_empty(devices@);
    }
    let mut i: usize = 0;
    while i < devices.len()
        invariant
            i <= devices@.len(),
            forall|j: int|
                0 <= j < i ==> !(spec_keep_device((#[trigger] devices@[j]).node_info)
                    && spec_disk_empty(devices@[j])),
            spec_first_empty(devices@) matches Some(w) ==> 0 <= w < devices@.len()
                && spec_keep_device(devices@[w].node_info) && spec_disk_empty(devices@[w]) && (
            forall|j: int|
                0 <= j < w ==> !(spec_keep_device((#[trigger] devices@[j]).node_info)
                    && spec_disk_empty(devices@[j]))),
            spec_first_empty(devices@) is None ==> forall|j: int|
                0 <= j < devices@.len() ==> !(spec_keep_device(
                    (#[trigger] devices@[j]).node_info,
                ) && spec_disk_empty(devices@[j])),
        decreases devices@.len() - i,
    {
        let dev = &devices[i];
        let empty = if keep_device(&dev.node_info) {
            match &dev.children {
                None => true,
                Some(children) => {
                    let mut all_free = true;
                    let mut k: usize = 0;
                    while k < children.len()
                        invariant
                            k <= children@.len(),
                            all_free == (forall|j: int|
                                0 <= j < k ==> (#[trigger] children@[j]).node_info.node_type@
                                    != "part"@),
                        decreases children@.len() - k,
                    {
                        if strutil::str_eq(children[k].node_info.node_type.as_str(), "part") {
                            all_free = false;
                        }
                        k = k + 1;
                    }
                    all_free
                },
            }
        } else {
            false
        };
        if empty {
            proof {
                if spec_first_empty(devices@) is None {
                    assert(false);
                }
            }
            return Some(i);
        }
        i = i + 1;
    }
    proof {
        if spec_first_empty(devices@) is Some {
            assert(false);
        }
    }
    None
}

/// Whether a node is free: it has no filesystem and, when it is a whole
/// disk, no partition table.
pub open spec fn spec_free_node(n: Node) -> bool {
    &&& n.fstype is None
    &&& ((n.node_type@ != "part"@ && n.ptuuid is None) || n.node_type@ == "part"@)
}

/// The free nodes of a list, in order.
pub open spec fn spec_free_nodes(ns: Seq<Node>) -> Seq<Node>
    decreases ns.len(),
{
    if ns.len() == 0 {
        Seq::empty()
    } else {
        let rest = spec_free_nodes(ns.drop_first());
        if spec_free_node(ns[0]) {
            seq![ns[0]] + rest
        } else {
            rest
        }
    }
}

/// The disk manager: the kept device nodes of this host.
pub struct DiskManager {
    pub device_nodes: Vec<Node>,
}

impl DiskManager {
    /// Lists free nodes: those without a filesystem and, for whole disks,
    /// without a partition table, in listing order.
    pub fn list_free_nodes(&self) -> (r: Vec<&Node>)
        ensures
            r@.map_values(|n: &Node| *n) == spec_free_nodes(self.device_nodes@),
    {
        let ns = &self.device_nodes;
        let mut out: Vec<&Node> = Vec::new();
        let mut i: usize = 0;
        proof {
            assert(ns@.skip(0) =~= ns@);
            assert(out@.map_values(|n: &Node| *n) =~= Seq::<Node>::empty());
        }
        while i < ns.len()
            invariant
                i <= ns@.len(),
                ns == &self.device_nodes,
                spec_free_nodes(ns@) == out@.map_values(|n: &Node| *n) + spec_free_nodes(
                    ns@.skip(i as int),
                ),
            decreases ns@.len() - i,
        {
            proof {
                assert(ns@.skip(i as int)[0] == ns@[i as int]);
                assert(ns@.skip(i as int).drop_first() =~= ns@.skip(i + 1));
            }
            let ghost pre = out@.map_values(|n: &Node| *n);
            let n = &ns[i];
            let free = match &n.fstype {
                None => {
                    if strutil::str_eq(n.node_type.as_str(), "part") {
                        true
                    } else {
                        matches!(&n.ptuuid, None)
                    }
                },
                Some(_) => false,
            };
            if free {
                out.push(n);
                proof {
                    assert(out@.map_values(|n: &Node| *n) =~= pre.push(ns@[i as int]));
                    assert(pre + (seq![ns@[i as int]] + spec_free_nodes(ns@.skip(i + 1)))
                        =~= out@.map_values(|n: &Node| *n) + spec_free_nodes(ns@.skip(i + 1)));
                }
            }
            i = i + 1;
        }
        proof {
            assert(ns@.skip(ns@.len() as int) =~= Seq::<Node>::empty());
            assert(out@.map_values(|n: &Node| *n) + Seq::<Node>::empty() =~= out@.map_values(
                |n: &Node| *n,
            ));
        }
        out
    }

    /// Reads the device listing through the executor, keeping the worthy
    /// disks and their children, and brings the cache filesystem up. A
    /// failing listing or cache setup is an error.
    pub fn new<E: Executor>(exec: &mut E) -> (r: Result<DiskManager, Error>) {
        let nodes = match Self::list_nodes(exec) {
            Ok(nodes) => nodes,
            Err(e) => {
                return Err(e);
            },
        };
        let dm = DiskManager { device_nodes: nodes };
        match ensure_cache(exec) {
            Ok(()) => Ok(dm),
            Err(e) => Err(e),
        }
    }

    /// Lists the kept devices afresh: the decoded listing flattened exactly
    /// as [`spec_flatten_kept`] lays it out — every kept disk's node
    /// followed by its child nodes, in listing order.
    fn list_nodes<E: Executor>(exec: &mut E) -> (r: Result<Vec<Node>, Error>) {
        let listing = match exec.lsblk() {
            Ok(s) => s,
            Err(e) => {
                return Err(e);
            },
        };
        let body = listing.as_str().as_bytes();
        if body.len() == usize::MAX {
            return Err(Error::IOError("listing too large".to_owned()));
        }
        let devices = match devices_from_listing(body) {
            Ok(d) => d,
            Err(e) => {
                return Err(e);
            },
        };
        Ok(flatten_kept(devices))
    }
}

/// Relies on chrono::Local::now and its formatter: the local time rendered
/// as a log-directory stamp; it depends on the clock and the zone, so
/// nothing more is said of it.
#[verifier::external_body]
fn log_stamp() -> (r: String) {
    chrono::Local::now().format("%Y%m%d-%H%M").to_string()
}

/// Where the cache filesystem is mounted.
pub const MOUNT_DIR: &'static str = "/mnt/storagepools/sp_zos_cache";

/// The label the cache filesystem carries.
pub const CACHE_LABEL: &'static str = "sp_zos_cache";

/// Ensures the cache filesystem exists and is mounted: repairs or creates
/// the labelled filesystem (partitioning an empty disk when none is found),
/// mounts it, makes the cache and log subvolumes, clears old container and
/// machine scratch directories, and carries the old logs over. The effects
/// live behind the executor; failures surface as its errors, and a cache
/// already mounted is refused.
pub fn ensure_cache<E: Executor>(exec: &mut E) -> (r: Result<(), Error>) {
    match exec.make_dir(MOUNT_DIR) {
        Ok(()) => {},
        Err(e) => {
            return Err(e);
        },
    }
    match exec.is_directory_mountpoint(MOUNT_DIR) {
        Ok(true) => {
            return Err(Error::IOError("cache is already mounted".to_owned()));
        },
        Ok(false) => {},
        Err(e) => {
            return Err(e);
        },
    }
    let disk = "/dev/disk/by-label/sp_zos_cache";
    let sound = match exec.btrfs_repair(disk) {
        Ok(b) => b,
        Err(e) => {
            return Err(e);
        },
    };
    if !sound {
        let empty = match find_empty_disk(exec) {
            Ok(Some(n)) => n,
            Ok(None) => {
                return Err(Error::IOError("failed to find empty disk".to_owned()));
            },
            Err(e) => {
                return Err(e);
            },
        };
        match exec.partition_disk(empty.name.as_str()) {
            Ok(()) => {},
            Err(e) => {
                return Err(e);
            },
        }
        match exec.create_fs(empty.name.as_str()) {
            Ok(()) => {},
            Err(e) => {
                return Err(e);
            },
        }
        let part = match get_child_partition(exec, &empty) {
            Ok(Some(p)) => p,
            Ok(None) => {
                return Err(
                    Error::IOError(
                        "could not get child partition of a fresh disk".to_owned(),
                    ),
                );
            },
            Err(e) => {
                return Err(e);
            },
        };
        match exec.make_fs(part.name.as_str(), CACHE_LABEL) {
            Ok(()) => {},
            Err(e) => {
                return Err(e);
            },
        }
    }
    match exec.mount(disk, MOUNT_DIR, Some("btrfs")) {
        Ok(()) => {},
        Err(e) => {
            return Err(e);
        },
    }
    let mounted = match exec.is_directory_mountpoint(MOUNT_DIR) {
        Ok(b) => b,
        Err(e) => {
            return Err(e);
        },
    };
    if mounted {
        let cache_path = strutil::concat2(MOUNT_DIR, "/cache");
        match exec.create_btrfs_subvol(cache_path.as_str()) {
            Ok(()) => {},
            Err(e) => {
                return Err(e);
            },
        }
        match exec.mount(cache_path.as_str(), "/var/cache", Some("btrfs")) {
            Ok(()) => {},
            Err(e) => {
                return Err(e);
            },
        }
        match clear_scratch(exec, "/var/cache/containers") {
            Ok(()) => {},
            Err(e) => {
                return Err(e);
            },
        }
        match clear_scratch(exec, "/var/cache/vms") {
            Ok(()) => {},
            Err(e) => {
                return Err(e);
            },
        }
        let logs_path = strutil::concat2(MOUNT_DIR, "/logs");
        match exec.create_btrfs_subvol(logs_path.as_str()) {
            Ok(()) => {},
            Err(e) => {
                return Err(e);
            },
        }
        let stamp = log_stamp();
        let log_dir = strutil::concat3(logs_path.as_str(), "/log-", stamp.as_str());
        match exec.create_btrfs_subvol(log_dir.as_str()) {
            Ok(()) => {},
            Err(e) => {
                return Err(e);
            },
        }
        let mut entries = match exec.list_dir("/var/log") {
            Ok(es) => es,
            Err(e) => {
                return Err(e);
            },
        };
        while entries.len() > 0
            decreases entries@.len(),
        {
            let entry = entries.remove(0);
            match exec.copy_dir(entry.as_str(), log_dir.as_str()) {
                Ok(()) => {},
                Err(e) => {
                    return Err(e);
                },
            }
        }
        match exec.mount(log_dir.as_str(), "/var/log", Some("btrfs")) {
            Ok(()) => {},
            Err(e) => {
                return Err(e);
            },
        }
    }
    Ok(())
}

/// Deletes every subvolume and directory under one scratch directory; a
/// directory that cannot be listed counts as absent and is skipped.
fn clear_scratch<E: Executor>(exec: &mut E, dir: &str) -> (r: Result<(), Error>) {
    let mut vols = match exec.list_dir(dir) {
        Ok(vs) => vs,
        Err(_) => {
            return Ok(());
        },
    };
    while vols.len() > 0
        decreases vols@.len(),
    {
        let vol = vols.remove(0);
        match exec.delete_btrfs_subvol(vol.as_str()) {
            Ok(()) => {},
            Err(e) => {
                return Err(e);
            },
        }
        match exec.delete_dir(vol.as_str()) {
            Ok(()) => {},
            Err(e) => {
                return Err(e);
            },
        }
    }
    Ok(())
}

/// Looks the listing up afresh for a kept disk that is empty, exactly as
/// [`spec_first_empty`] selects it from the decoded listing; the node
/// returned is never an excluded device's.
fn find_empty_disk<E: Executor>(exec: &mut E) -> (r: Result<Option<Node>, Error>)
    ensures
        r matches Ok(o) ==> (o matches Some(n) ==> spec_keep_device(n)),
{
    let listing = match exec.lsblk() {
        Ok(s) => s,
        Err(e) => {
            return Err(e);
        },
    };
    let body = listing.as_str().as_bytes();
    if body.len() == usize::MAX {
        return Err(Error::IOError("listing too large".to_owned()));
    }
    let devices = match devices_from_listing(body) {
        Ok(d) => d,
        Err(e) => {
            return Err(e);
        },
    };
    match select_empty(&devices) {
        Some(ix) => {
            proof {
                lemma_first_empty(devices@);
            }
            let mut devices = devices;
            let dev = devices.remove(ix);
            Ok(Some(dev.node_info))
        },
        None => Ok(None),
    }
}

/// Looks the listing up afresh for the first child partition of `node`.
fn get_child_partition<E: Executor>(exec: &mut E, node: &Node) -> (r: Result<Option<Node>, Error>) {
    let listing = match exec.lsblk() {
        Ok(s) => s,
        Err(e) => {
            return Err(e);
        },
    };
    let body = listing.as_str().as_bytes();
    if body.len() == usize::MAX {
        return Err(Error::IOError("listing too large".to_owned()));
    }
    let mut devices = match devices_from_listing(body) {
        Ok(d) => d,
        Err(e) => {
            return Err(e);
        },
    };
    while devices.len() > 0
        decreases devices@.len(),
    {
        let dev = devices.remove(0);
        if strutil::str_eq(dev.node_info.name.as_str(), node.name.as_str()) {
            match dev.children {
                Some(children) => {
                    let mut children = children;
                    if children.len() > 0 {
                        let first = children.remove(0);
                        return Ok(Some(first.node_info));
                    }
                    return Ok(None);
                },
                None => {
                    return Ok(None);
                },
            }
        }
    }
    Ok(None)
}

} // verus!
