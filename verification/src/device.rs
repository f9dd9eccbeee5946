//! Devices as the kernel announces them: their properties, and what is
//! read out of the text of an event.
use crate::devnum_util::{
    major, major_spec, makedev, makedev_spec, minor, minor_spec, EINVAL, ENODEV, ENOTTY, S_IFBLK,
    S_IFCHR, S_IFMT,
};
use crate::socket_addr::next_pos;
use crate::text_num::{num_digits, parse_decimal_u64, parse_num, push_decimal_u64};
use vstd::prelude::*;

verus! {

/// What has happened to a device.
#[derive(Clone, Copy, PartialEq, Eq, Debug, Structural)]
pub enum DeviceAction {
    Add,
    Remove,
    Change,
    Move,
    Online,
    Offline,
    Bind,
    Unbind,
}

/// A property of a device.
pub struct Property {
    pub key: Vec<u8>,
    pub value: Vec<u8>,
}

/// A device.
pub struct Device {
    /// Inotify handle.
    pub watch_handle: i32,
    pub ifindex: i32,
    pub devtype: Vec<u8>,
    pub devname: Vec<u8>,
    pub devnum: u64,
    /// The path under `/sys`, with `/sys` in front.
    pub syspath: Vec<u8>,
    /// The path under `/sys`, without `/sys` in front.
    pub devpath: Vec<u8>,
    /// The digits that the name ends in.
    pub sysnum: Option<Vec<u8>>,
    /// The last part of the path.
    pub sysname: Vec<u8>,
    pub subsystem: Vec<u8>,
    /// Set only for the subsystem `drivers`.
    pub driver_subsystem: Vec<u8>,
    pub devmode: u32,
    pub devuid: u32,
    pub devgid: u32,
    /// Set only when the device came with an event.
    pub action: Option<DeviceAction>,
    pub seqnum: Option<u64>,
    pub properties: Vec<Property>,
    /// The properties that are written to the database.
    pub properties_db: Vec<Property>,
    /// The properties as one text, each as key, `=`, value and a zero
    /// byte.
    pub properties_nulstr: Vec<u8>,
    pub properties_nulstr_len: usize,
    pub diskseq: u64,
    /// Whether the properties have changed since their text was made.
    pub properties_buf_outdated: bool,
    pub uevent_loaded: bool,
    pub subsystem_set: bool,
    pub parent_set: bool,
}

/// A device as a mathematical value.
pub struct DeviceModel {
    pub watch_handle: i32,
    pub ifindex: i32,
    pub devtype: Seq<u8>,
    pub devname: Seq<u8>,
    pub devnum: u64,
    pub syspath: Seq<u8>,
    pub devpath: Seq<u8>,
    pub sysnum: Option<Seq<u8>>,
    pub sysname: Seq<u8>,
    pub subsystem: Seq<u8>,
    pub driver_subsystem: Seq<u8>,
    pub devmode: u32,
    pub devuid: u32,
    pub devgid: u32,
    pub action: Option<DeviceAction>,
    pub seqnum: Option<u64>,
    pub properties: Seq<(Seq<u8>, Seq<u8>)>,
    pub properties_db: Seq<(Seq<u8>, Seq<u8>)>,
    pub properties_nulstr: Seq<u8>,
    pub properties_nulstr_len: usize,
    pub diskseq: u64,
    pub properties_buf_outdated: bool,
    pub uevent_loaded: bool,
    pub subsystem_set: bool,
    pub parent_set: bool,
}

/// The properties as pairs of key and value.
pub open spec fn props_view(props: Seq<Property>) -> Seq<(Seq<u8>, Seq<u8>)> {
    Seq::new(props.len(), |i: int| (props[i].key@, props[i].value@))
}

impl View for Device {
    type V = DeviceModel;

    open spec fn view(&self) -> DeviceModel {
        DeviceModel {
            watch_handle: self.watch_handle,
            ifindex: self.ifindex,
            devtype: self.devtype@,
            devname: self.devname@,
            devnum: self.devnum,
            syspath: self.syspath@,
            devpath: self.devpath@,
            sysnum: match self.sysnum {
                Some(n) => Some(n@),
                None => None,
            },
            sysname: self.sysname@,
            subsystem: self.subsystem@,
            driver_subsystem: self.driver_subsystem@,
            devmode: self.devmode,
            devuid: self.devuid,
            devgid: self.devgid,
            action: self.action,
            seqnum: self.seqnum,
            properties: props_view(self.properties@),
            properties_db: props_view(self.properties_db@),
            properties_nulstr: self.properties_nulstr@,
            properties_nulstr_len: self.properties_nulstr_len,
            diskseq: self.diskseq,
            properties_buf_outdated: self.properties_buf_outdated,
            uevent_loaded: self.uevent_loaded,
            subsystem_set: self.subsystem_set,
            parent_set: self.parent_set,
        }
    }
}

/// A device of which nothing is known.
pub open spec fn unknown_device() -> DeviceModel {
    DeviceModel {
        watch_handle: -1i32,
        ifindex: 0,
        devtype: Seq::empty(),
        devname: Seq::empty(),
        devnum: 0,
        syspath: Seq::empty(),
        devpath: Seq::empty(),
        sysnum: None,
        sysname: Seq::empty(),
        subsystem: Seq::empty(),
        driver_subsystem: Seq::empty(),
        devmode: u32::MAX,
        devuid: u32::MAX,
        devgid: u32::MAX,
        action: None,
        seqnum: None,
        properties: Seq::empty(),
        properties_db: Seq::empty(),
        properties_nulstr: Seq::empty(),
        properties_nulstr_len: 0,
        diskseq: 0,
        properties_buf_outdated: false,
        uevent_loaded: false,
        subsystem_set: false,
        parent_set: false,
    }
}

/// The name by which an action is known in events.
pub open spec fn action_name(action: DeviceAction) -> Seq<u8> {
    match action {
        DeviceAction::Add => seq![97u8, 100, 100],
        DeviceAction::Remove => seq![114u8, 101, 109, 111, 118, 101],
        DeviceAction::Change => seq![99u8, 104, 97, 110, 103, 101],
        DeviceAction::Move => seq![109u8, 111, 118, 101],
        DeviceAction::Online => seq![111u8, 110, 108, 105, 110, 101],
        DeviceAction::Offline => seq![111u8, 102, 102, 108, 105, 110, 101],
        DeviceAction::Bind => seq![98u8, 105, 110, 100],
        DeviceAction::Unbind => seq![117u8, 110, 98, 105, 110, 100],
    }
}

/// The action that a name stands for.
pub open spec fn action_of(name: Seq<u8>) -> Option<DeviceAction> {
    if name == action_name(DeviceAction::Add) {
        Some(DeviceAction::Add)
    } else if name == action_name(DeviceAction::Remove) {
        Some(DeviceAction::Remove)
    } else if name == action_name(DeviceAction::Change) {
        Some(DeviceAction::Change)
    } else if name == action_name(DeviceAction::Move) {
        Some(DeviceAction::Move)
    } else if name == action_name(DeviceAction::Online) {
        Some(DeviceAction::Online)
    } else if name == action_name(DeviceAction::Offline) {
        Some(DeviceAction::Offline)
    } else if name == action_name(DeviceAction::Bind) {
        Some(DeviceAction::Bind)
    } else if name == action_name(DeviceAction::Unbind) {
        Some(DeviceAction::Unbind)
    } else {
        None
    }
}

/// The key `DEVPATH`.
pub open spec fn key_devpath() -> Seq<u8> {
    seq![68u8, 69, 86, 80, 65, 84, 72]
}

/// The key `ACTION`.
pub open spec fn key_action() -> Seq<u8> {
    seq![65u8, 67, 84, 73, 79, 78]
}

/// The key `SUBSYSTEM`.
pub open spec fn key_subsystem() -> Seq<u8> {
    seq![83u8, 85, 66, 83, 89, 83, 84, 69, 77]
}

/// The key `DEVTYPE`.
pub open spec fn key_devtype() -> Seq<u8> {
    seq![68u8, 69, 86, 84, 89, 80, 69]
}

/// The key `MINOR`.
pub open spec fn key_minor() -> Seq<u8> {
    seq![77u8, 73, 78, 79, 82]
}

/// The key `MAJOR`.
pub open spec fn key_major() -> Seq<u8> {
    seq![77u8, 65, 74, 79, 82]
}

/// The key `DEVNAME`.
pub open spec fn key_devname() -> Seq<u8> {
    seq![68u8, 69, 86, 78, 65, 77, 69]
}

/// The key `SEQNUM`.
pub open spec fn key_seqnum() -> Seq<u8> {
    seq![83u8, 69, 81, 78, 85, 77]
}

/// The key `TAGS`.
pub open spec fn key_tags() -> Seq<u8> {
    seq![84u8, 65, 71, 83]
}

/// The key `CURRENT_TAGS`.
pub open spec fn key_current_tags() -> Seq<u8> {
    seq![67u8, 85, 82, 82, 69, 78, 84, 95, 84, 65, 71, 83]
}

/// The key `IFINDEX`.
pub open spec fn key_ifindex() -> Seq<u8> {
    seq![73u8, 70, 73, 78, 68, 69, 88]
}

/// The key `DEVMODE`.
pub open spec fn key_devmode() -> Seq<u8> {
    seq![68u8, 69, 86, 77, 79, 68, 69]
}

/// The key `DISKSEQ`.
pub open spec fn key_diskseq() -> Seq<u8> {
    seq![68u8, 73, 83, 75, 83, 69, 81]
}

/// The text `/sys`.
pub open spec fn sys_prefix() -> Seq<u8> {
    seq![47u8, 115, 121, 115]
}

/// The text `/dev/`.
pub open spec fn dev_prefix() -> Seq<u8> {
    seq![47u8, 100, 101, 118, 47]
}

/// The place among the first `upto` properties that holds `key`.
pub open spec fn prop_index(props: Seq<(Seq<u8>, Seq<u8>)>, key: Seq<u8>, upto: int) -> Option<int>
    decreases upto,
{
    if upto <= 0 || upto > props.len() {
        None
    } else {
        match prop_index(props, key, upto - 1) {
            Some(i) => Some(i),
            None => if props[upto - 1].0 == key {
                Some(upto - 1)
            } else {
                None
            },
        }
    }
}

/// The properties after `key` has been given `value`: an empty value
/// takes the property away, any other value takes the place of the old
/// one or comes last.
pub open spec fn props_set(props: Seq<(Seq<u8>, Seq<u8>)>, key: Seq<u8>, value: Seq<u8>) -> Seq<
    (Seq<u8>, Seq<u8>),
> {
    match prop_index(props, key, props.len() as int) {
        Some(i) => if value.len() == 0 {
            props.remove(i)
        } else {
            props.update(i, (key, value))
        },
        None => if value.len() == 0 {
            props
        } else {
            props.push((key, value))
        },
    }
}

/// The text of the first `upto` properties: each as key, `=`, value and
/// a zero byte.
pub open spec fn props_nulstr(props: Seq<(Seq<u8>, Seq<u8>)>, upto: int) -> Seq<u8>
    decreases upto,
{
    if upto <= 0 || upto > props.len() {
        Seq::empty()
    } else {
        props_nulstr(props, upto - 1) + props[upto - 1].0 + seq![61u8] + props[upto - 1].1
            + seq![0u8]
    }
}

/// The place right after the last `/` among the first `upto` bytes, if
/// there is a `/`.
pub open spec fn last_slash(s: Seq<u8>, upto: int) -> Option<int>
    decreases upto,
{
    if upto <= 0 || upto > s.len() {
        None
    } else if s[upto - 1] == 47 {
        Some(upto - 1)
    } else {
        last_slash(s, upto - 1)
    }
}

/// The place at which the digits begin that `s` ends in.
pub open spec fn digits_start(s: Seq<u8>, upto: int) -> int
    decreases upto,
{
    if upto <= 0 || upto > s.len() {
        0
    } else if 48 <= s[upto - 1] <= 57 {
        digits_start(s, upto - 1)
    } else {
        upto
    }
}

/// `s` with every `!` turned into `/`.
pub open spec fn bang_to_slash(s: Seq<u8>) -> Seq<u8> {
    Seq::new(
        s.len(),
        |i: int|
            if s[i] == 33 {
                47u8
            } else {
                s[i]
            },
    )
}

impl DeviceModel {
    /// With the property `key` given `value`, in the database where
    /// `db` holds and among the device's own properties otherwise. A
    /// property must have a key.
    pub open spec fn add_property_aux(self, key: Seq<u8>, value: Seq<u8>, db: bool) -> Result<
        DeviceModel,
        i32,
    > {
        if key.len() == 0 {
            Err(EINVAL)
        } else if db {
            Ok(DeviceModel { properties_db: props_set(self.properties_db, key, value), ..self })
        } else {
            Ok(
                DeviceModel {
                    properties: props_set(self.properties, key, value),
                    properties_buf_outdated: true,
                    ..self
                },
            )
        }
    }

    /// With `key` given `value` among the device's own properties.
    pub open spec fn add_property(self, key: Seq<u8>, value: Seq<u8>) -> DeviceModel {
        DeviceModel {
            properties: props_set(self.properties, key, value),
            properties_buf_outdated: true,
            ..self
        }
    }

    /// At the path `path`, which must lie under `/sys/`.
    pub open spec fn set_syspath(self, path: Seq<u8>) -> Result<DeviceModel, i32> {
        if !(path.len() >= 5 && path.subrange(0, 4) == sys_prefix() && path[4] == 47) {
            Err(EINVAL)
        } else {
            let devpath = path.subrange(4, path.len() as int);
            Ok(
                DeviceModel {
                    syspath: path,
                    devpath,
                    ..self.add_property(key_devpath(), devpath)
                },
            )
        }
    }

    /// With the name and the number that the device's path ends in. The
    /// name is the last part of the path, with `/` for each `!`; the
    /// number is the digits that the name ends in, if any.
    pub open spec fn set_sysname_and_sysnum(self) -> Result<DeviceModel, i32> {
        match last_slash(self.devpath, self.devpath.len() as int) {
            None => Err(EINVAL),
            Some(i) => {
                let sysname = bang_to_slash(
                    self.devpath.subrange(i + 1, self.devpath.len() as int),
                );
                let at = digits_start(sysname, sysname.len() as int);
                Ok(
                    DeviceModel {
                        sysname,
                        sysnum: if at == sysname.len() {
                            None
                        } else {
                            Some(sysname.subrange(at, sysname.len() as int))
                        },
                        ..self
                    },
                )
            },
        }
    }

    /// Of the type `devtype`.
    pub open spec fn set_devtype(self, devtype: Seq<u8>) -> DeviceModel {
        DeviceModel { devtype, ..self.add_property(key_devtype(), devtype) }
    }

    /// In the subsystem `subsystem`.
    pub open spec fn set_subsystem(self, subsystem: Seq<u8>) -> DeviceModel {
        DeviceModel {
            subsystem,
            subsystem_set: true,
            ..self.add_property(key_subsystem(), subsystem)
        }
    }

    /// With the node `devname`, under `/dev/` unless it begins with `/`.
    pub open spec fn set_devname(self, devname: Seq<u8>) -> DeviceModel {
        let full = if devname.len() > 0 && devname[0] == 47 {
            devname
        } else {
            dev_prefix() + devname
        };
        DeviceModel { devname: full, ..self.add_property(key_devname(), full) }
    }

    /// With the device number made of `major` and `minor`, which must
    /// be decimal numbers of up to 64 bits.
    pub open spec fn set_devnum(self, major: Seq<u8>, minor: Seq<u8>) -> Result<DeviceModel, i32> {
        match (
            parse_num(major, false, 0xffff_ffff_ffff_ffff),
            parse_num(minor, false, 0xffff_ffff_ffff_ffff),
        ) {
            (Some(ma), Some(mi)) => Ok(
                DeviceModel {
                    devnum: makedev_spec(ma as u64, mi as u64),
                    ..self.add_property(key_major(), major).add_property(key_minor(), minor)
                },
            ),
            _ => Err(EINVAL),
        }
    }

    /// With the sequence number `seqnum`.
    pub open spec fn set_seqnum(self, seqnum: u64) -> DeviceModel {
        DeviceModel {
            seqnum: Some(seqnum),
            ..self.add_property(key_seqnum(), num_digits(seqnum as nat, false))
        }
    }

    /// With the sequence number that `text` stands for.
    pub open spec fn set_seqnum_from_string(self, text: Seq<u8>) -> Result<DeviceModel, i32> {
        match parse_num(text, false, 0xffff_ffff_ffff_ffff) {
            Some(n) => Ok(self.set_seqnum(n as u64)),
            None => Err(EINVAL),
        }
    }

    /// With the action `action`.
    pub open spec fn set_action(self, action: DeviceAction) -> DeviceModel {
        DeviceModel {
            action: Some(action),
            ..self.add_property(key_action(), action_name(action))
        }
    }

    /// With the action that `name` stands for.
    pub open spec fn set_action_from_string(self, name: Seq<u8>) -> Result<DeviceModel, i32> {
        match action_of(name) {
            Some(action) => Ok(self.set_action(action)),
            None => Err(EINVAL),
        }
    }

    /// With the text of the properties made anew, where they have
    /// changed since it was made.
    pub open spec fn update_properties_bufs(self) -> DeviceModel {
        if !self.properties_buf_outdated {
            self
        } else {
            let text = props_nulstr(self.properties, self.properties.len() as int);
            DeviceModel {
                properties_nulstr: text,
                properties_nulstr_len: text.len() as usize,
                properties_buf_outdated: false,
                ..self
            }
        }
    }
}

/// The path under `/sys/dev` that leads to the device with the number
/// `devnum`: for a character device under `char`, for a block device
/// under `block`; the mode must be that of one of the two, and the
/// major number may not be 0.
pub open spec fn devnum_syspath(mode: u32, devnum: u64) -> Result<Seq<u8>, i32> {
    if mode & S_IFMT != S_IFCHR && mode & S_IFMT != S_IFBLK {
        Err(ENOTTY)
    } else if major_spec(devnum) == 0 {
        Err(ENODEV)
    } else {
        Ok(
            (if mode & S_IFMT == S_IFCHR {
                seq![47u8, 115, 121, 115, 47, 100, 101, 118, 47, 99, 104, 97, 114, 47]
            } else {
                seq![47u8, 115, 121, 115, 47, 100, 101, 118, 47, 98, 108, 111, 99, 107, 47]
            }) + num_digits(major_spec(devnum) as nat, false) + seq![58u8] + num_digits(
                minor_spec(devnum) as nat,
                false,
            ),
        )
    }
}

fn same_bytes(a: &Vec<u8>, b: &Vec<u8>) -> (r: bool)
    ensures
        r == (a@ == b@),
{
    if a.len() != b.len() {
        return false;
    }
    let mut i: usize = 0;
    while i < a.len()
        invariant
            i <= a.len(),
            a@.len() == b@.len(),
            forall|k: int| 0 <= k < i ==> a@[k] == b@[k],
        decreases a.len() - i,
    {
        if a[i] != b[i] {
            return false;
        }
        i += 1;
    }
    assert(a@ =~= b@);
    true
}

fn copy_bytes(bytes: &Vec<u8>, start: usize, end: usize) -> (r: Vec<u8>)
    requires
        start <= end <= bytes@.len(),
    ensures
        r@ == bytes@.subrange(start as int, end as int),
{
    let mut out: Vec<u8> = Vec::new();
    let mut i: usize = start;
    while i < end
        invariant
            start <= i <= end <= bytes@.len(),
            out@ == bytes@.subrange(start as int, i as int),
        decreases end - i,
    {
        out.push(bytes[i]);
        proof {
            assert(bytes@.subrange(start as int, i + 1) =~= bytes@.subrange(
                start as int,
                i as int,
            ).push(bytes@[i as int]));
        }
        i += 1;
    }
    out
}

fn append_bytes(out: &mut Vec<u8>, bytes: &Vec<u8>)
    ensures
        final(out)@ == old(out)@ + bytes@,
{
    let mut i: usize = 0;
    while i < bytes.len()
        invariant
            i <= bytes.len(),
            out@ == old(out)@ + bytes@.take(i as int),
        decreases bytes.len() - i,
    {
        out.push(bytes[i]);
        proof {
            assert(bytes@.take(i + 1) =~= bytes@.take(i as int).push(bytes@[i as int]));
            assert(out@ =~= old(out)@ + bytes@.take(i + 1));
        }
        i += 1;
    }
    proof {
        assert(bytes@.take(bytes@.len() as int) =~= bytes@);
    }
}

fn find_last_slash(bytes: &Vec<u8>) -> (r: Option<usize>)
    ensures
        match r {
            Some(i) => last_slash(bytes@, bytes@.len() as int) == Some(i as int) && i
                < bytes@.len(),
            None => last_slash(bytes@, bytes@.len() as int) is None,
        },
{
    let mut i: usize = bytes.len();
    while i > 0
        invariant
            i <= bytes@.len(),
            last_slash(bytes@, bytes@.len() as int) == last_slash(bytes@, i as int),
        decreases i,
    {
        if bytes[i - 1] == 47 {
            return Some(i - 1);
        }
        i -= 1;
    }
    None
}

proof fn lemma_prop_index_found(props: Seq<(Seq<u8>, Seq<u8>)>, key: Seq<u8>, i: int, upto: int)
    requires
        0 <= i < upto <= props.len(),
        prop_index(props, key, i) is None,
        props[i].0 == key,
    ensures
        prop_index(props, key, upto) == Some(i),
    decreases upto - i,
{
    if upto > i + 1 {
        lemma_prop_index_found(props, key, i, upto - 1);
    }
}

/// Gives `key` the value `value` in `props`.
fn set_property(props: &mut Vec<Property>, key: Vec<u8>, value: Vec<u8>)
    ensures
        props_view(final(props)@) == props_set(props_view(old(props)@), key@, value@),
{
    let ghost before = props_view(props@);
    let mut i: usize = 0;
    while i < props.len()
        invariant
            i <= props.len(),
            props@ == old(props)@,
            before == props_view(props@),
            prop_index(before, key@, i as int) is None,
        decreases props.len() - i,
    {
        if same_bytes(&props[i].key, &key) {
            proof {
                assert(before[i as int].0 == key@);
                lemma_prop_index_found(before, key@, i as int, before.len() as int);
            }
            if value.len() == 0 {
                props.remove(i);
                proof {
                    assert(props_view(props@) =~= before.remove(i as int));
                }
            } else {
                props.set(i, Property { key, value });
                proof {
                    assert(props_view(props@) =~= before.update(i as int, (key@, value@)));
                }
            }
            return ;
        }
        proof {
            assert(before[i as int].0 == props@[i as int].key@);
        }
        i += 1;
    }
    if value.len() != 0 {
        props.push(Property { key, value });
        proof {
            assert(props_view(props@) =~= before.push((key@, value@)));
        }
    }
}

fn devpath_key() -> (r: Vec<u8>)
    ensures
        r@ == key_devpath(),
{
    let r: Vec<u8> = vec![68u8, 69, 86, 80, 65, 84, 72];
    assert(r@ =~= key_devpath());
    r
}

fn action_key() -> (r: Vec<u8>)
    ensures
        r@ == key_action(),
{
    let r: Vec<u8> = vec![65u8, 67, 84, 73, 79, 78];
    assert(r@ =~= key_action());
    r
}

fn subsystem_key() -> (r: Vec<u8>)
    ensures
        r@ == key_subsystem(),
{
    let r: Vec<u8> = vec![83u8, 85, 66, 83, 89, 83, 84, 69, 77];
    assert(r@ =~= key_subsystem());
    r
}

fn devtype_key() -> (r: Vec<u8>)
    ensures
        r@ == key_devtype(),
{
    let r: Vec<u8> = vec![68u8, 69, 86, 84, 89, 80, 69];
    assert(r@ =~= key_devtype());
    r
}

fn minor_key() -> (r: Vec<u8>)
    ensures
        r@ == key_minor(),
{
    let r: Vec<u8> = vec![77u8, 73, 78, 79, 82];
    assert(r@ =~= key_minor());
    r
}

fn major_key() -> (r: Vec<u8>)
    ensures
        r@ == key_major(),
{
    let r: Vec<u8> = vec![77u8, 65, 74, 79, 82];
    assert(r@ =~= key_major());
    r
}

fn devname_key() -> (r: Vec<u8>)
    ensures
        r@ == key_devname(),
{
    let r: Vec<u8> = vec![68u8, 69, 86, 78, 65, 77, 69];
    assert(r@ =~= key_devname());
    r
}

fn seqnum_key() -> (r: Vec<u8>)
    ensures
        r@ == key_seqnum(),
{
    let r: Vec<u8> = vec![83u8, 69, 81, 78, 85, 77];
    assert(r@ =~= key_seqnum());
    r
}

fn tags_key() -> (r: Vec<u8>)
    ensures
        r@ == key_tags(),
{
    let r: Vec<u8> = vec![84u8, 65, 71, 83];
    assert(r@ =~= key_tags());
    r
}

fn current_tags_key() -> (r: Vec<u8>)
    ensures
        r@ == key_current_tags(),
{
    let r: Vec<u8> = vec![67u8, 85, 82, 82, 69, 78, 84, 95, 84, 65, 71, 83];
    assert(r@ =~= key_current_tags());
    r
}

fn ifindex_key() -> (r: Vec<u8>)
    ensures
        r@ == key_ifindex(),
{
    let r: Vec<u8> = vec![73u8, 70, 73, 78, 68, 69, 88];
    assert(r@ =~= key_ifindex());
    r
}

fn devmode_key() -> (r: Vec<u8>)
    ensures
        r@ == key_devmode(),
{
    let r: Vec<u8> = vec![68u8, 69, 86, 77, 79, 68, 69];
    assert(r@ =~= key_devmode());
    r
}

fn diskseq_key() -> (r: Vec<u8>)
    ensures
        r@ == key_diskseq(),
{
    let r: Vec<u8> = vec![68u8, 73, 83, 75, 83, 69, 81];
    assert(r@ =~= key_diskseq());
    r
}

impl DeviceAction {
    /// The name by which the action is known in events.
    pub fn name(self) -> (r: Vec<u8>)
        ensures
            r@ == action_name(self),
    {
        let r: Vec<u8> = match self {
            DeviceAction::Add => vec![97u8, 100, 100],
            DeviceAction::Remove => vec![114u8, 101, 109, 111, 118, 101],
            DeviceAction::Change => vec![99u8, 104, 97, 110, 103, 101],
            DeviceAction::Move => vec![109u8, 111, 118, 101],
            DeviceAction::Online => vec![111u8, 110, 108, 105, 110, 101],
            DeviceAction::Offline => vec![111u8, 102, 102, 108, 105, 110, 101],
            DeviceAction::Bind => vec![98u8, 105, 110, 100],
            DeviceAction::Unbind => vec![117u8, 110, 98, 105, 110, 100],
        };
        assert(r@ =~= action_name(self));
        r
    }

    /// The action that `name` stands for.
    pub fn from_name(name: &Vec<u8>) -> (r: Option<DeviceAction>)
        ensures
            r == action_of(name@),
    {
        if same_bytes(name, &DeviceAction::Add.name()) {
            Some(DeviceAction::Add)
        } else if same_bytes(name, &DeviceAction::Remove.name()) {
            Some(DeviceAction::Remove)
        } else if same_bytes(name, &DeviceAction::Change.name()) {
            Some(DeviceAction::Change)
        } else if same_bytes(name, &DeviceAction::Move.name()) {
            Some(DeviceAction::Move)
        } else if same_bytes(name, &DeviceAction::Online.name()) {
            Some(DeviceAction::Online)
        } else if same_bytes(name, &DeviceAction::Offline.name()) {
            Some(DeviceAction::Offline)
        } else if same_bytes(name, &DeviceAction::Bind.name()) {
            Some(DeviceAction::Bind)
        } else if same_bytes(name, &DeviceAction::Unbind.name()) {
            Some(DeviceAction::Unbind)
        } else {
            None
        }
    }
}

impl Device {
    /// A device of which nothing is known.
    pub fn new() -> (r: Device)
        ensures
            r@ == unknown_device(),
    {
        let r = Device {
            watch_handle: -1,
            ifindex: 0,
            devtype: Vec::new(),
            devname: Vec::new(),
            devnum: 0,
            syspath: Vec::new(),
            devpath: Vec::new(),
            sysnum: None,
            sysname: Vec::new(),
            subsystem: Vec::new(),
            driver_subsystem: Vec::new(),
            devmode: u32::MAX,
            devuid: u32::MAX,
            devgid: u32::MAX,
            action: None,
            seqnum: None,
            properties: Vec::new(),
            properties_db: Vec::new(),
            properties_nulstr: Vec::new(),
            properties_nulstr_len: 0,
            diskseq: 0,
            properties_buf_outdated: false,
            uevent_loaded: false,
            subsystem_set: false,
            parent_set: false,
        };
        proof {
            assert(r@.properties =~= Seq::empty());
            assert(r@.properties_db =~= Seq::empty());
        }
        r
    }

    pub fn get_seqnum(&self) -> (r: Option<u64>)
        ensures
            r == self@.seqnum,
    {
        self.seqnum
    }

    /// The path of the device with `/sys` in front, once it is known.
    pub fn get_syspath(&self) -> (r: Option<&Vec<u8>>)
        ensures
            match r {
                Some(p) => p@ == self@.syspath && p@.len() > 0,
                None => self@.syspath.len() == 0,
            },
    {
        if self.syspath.len() == 0 {
            return None;
        }
        Some(&self.syspath)
    }

    /// The path of the device under `/sys`, once it is known.
    pub fn get_devpath(&self) -> (r: Option<&Vec<u8>>)
        ensures
            match r {
                Some(p) => p@ == self@.devpath && p@.len() > 0,
                None => self@.devpath.len() == 0,
            },
    {
        if self.devpath.len() == 0 {
            return None;
        }
        Some(&self.devpath)
    }

    /// The name of the device, worked out from its path where it is not
    /// known yet.
    pub fn get_sysname(&mut self) -> (r: Option<Vec<u8>>)
        ensures
            old(self)@.sysname.len() > 0 ==> final(self)@ == old(self)@ && r is Some && r->0@
                == old(self)@.sysname,
            old(self)@.sysname.len() == 0 ==> match old(self)@.set_sysname_and_sysnum() {
                Ok(m) => final(self)@ == m && r is Some && r->0@ == m.sysname,
                Err(_) => final(self)@ == old(self)@ && r is None,
            },
    {
        if self.sysname.len() == 0 {
            match self.set_sysname_and_sysnum() {
                Err(_) => {
                    return None;
                },
                Ok(()) => {},
            }
        }
        Some(copy_bytes(&self.sysname, 0, self.sysname.len()))
    }

    /// Adds a property that is not written to the database.
    pub fn add_property_internal(&mut self, key: Vec<u8>, value: Vec<u8>) -> (r: Result<(), i32>)
        ensures
            match old(self)@.add_property_aux(key@, value@, false) {
                Ok(m) => r is Ok && final(self)@ == m,
                Err(e) => r == Err::<(), i32>(e) && final(self)@ == old(self)@,
            },
    {
        self.add_property_aux(key, value, false)
    }

    /// Gives the property `key` the value `value`: see
    /// [`DeviceModel::add_property_aux`].
    pub fn add_property_aux(&mut self, key: Vec<u8>, value: Vec<u8>, db: bool) -> (r: Result<
        (),
        i32,
    >)
        ensures
            match old(self)@.add_property_aux(key@, value@, db) {
                Ok(m) => r is Ok && final(self)@ == m,
                Err(e) => r == Err::<(), i32>(e) && final(self)@ == old(self)@,
            },
    {
        if key.len() == 0 {
            return Err(EINVAL);
        }
        if db {
            set_property(&mut self.properties_db, key, value);
        } else {
            set_property(&mut self.properties, key, value);
            self.properties_buf_outdated = true;
        }
        Ok(())
    }

    fn put(&mut self, key: Vec<u8>, value: Vec<u8>)
        ensures
            final(self)@ == old(self)@.add_property(key@, value@),
    {
        set_property(&mut self.properties, key, value);
        self.properties_buf_outdated = true;
    }

    /// Sets the path of the device, which must lie under `/sys/`.
    pub fn set_syspath(&mut self, path: Vec<u8>) -> (r: Result<(), i32>)
        ensures
            match old(self)@.set_syspath(path@) {
                Ok(m) => r is Ok && final(self)@ == m,
                Err(e) => r == Err::<(), i32>(e) && final(self)@ == old(self)@,
            },
    {
        let under_sys = path.len() >= 5 && path[0] == 47 && path[1] == 115 && path[2] == 121
            && path[3] == 115 && path[4] == 47;
        proof {
            let p = sys_prefix();
            assert(p.len() == 4 && p[0] == 47 && p[1] == 115 && p[2] == 121 && p[3] == 115);
            if path@.len() >= 5 {
                let head = path@.subrange(0, 4);
                assert(head[0] == path@[0] && head[1] == path@[1] && head[2] == path@[2] && head[3]
                    == path@[3]);
                if under_sys {
                    assert(head =~= p);
                }
            }
        }
        if !under_sys {
            return Err(EINVAL);
        }
        let devpath = copy_bytes(&path, 4, path.len());
        self.put(devpath_key(), copy_bytes(&devpath, 0, devpath.len()));
        proof {
            assert(devpath@.subrange(0, devpath@.len() as int) =~= devpath@);
        }
        self.syspath = path;
        self.devpath = devpath;
        Ok(())
    }

    /// Works out the name and the number of the device from its path.
    pub fn set_sysname_and_sysnum(&mut self) -> (r: Result<(), i32>)
        ensures
            match old(self)@.set_sysname_and_sysnum() {
                Ok(m) => r is Ok && final(self)@ == m,
                Err(e) => r == Err::<(), i32>(e) && final(self)@ == old(self)@,
            },
    {
        let len = self.devpath.len();
        let at = match find_last_slash(&self.devpath) {
            Some(at) => at,
            None => {
                return Err(EINVAL);
            },
        };
        let raw = copy_bytes(&self.devpath, at + 1, len);
        let mut sysname: Vec<u8> = Vec::new();
        let mut j: usize = 0;
        while j < raw.len()
            invariant
                j <= raw.len(),
                sysname@ == bang_to_slash(raw@).take(j as int),
            decreases raw.len() - j,
        {
            let c = if raw[j] == 33 {
                47
            } else {
                raw[j]
            };
            sysname.push(c);
            proof {
                assert(bang_to_slash(raw@).take(j + 1) =~= bang_to_slash(raw@).take(j as int).push(
                    bang_to_slash(raw@)[j as int],
                ));
            }
            j += 1;
        }
        proof {
            assert(bang_to_slash(raw@).take(raw@.len() as int) =~= bang_to_slash(raw@));
        }
        let mut k: usize = sysname.len();
        while k > 0 && 48 <= sysname[k - 1] && sysname[k - 1] <= 57
            invariant
                k <= sysname.len(),
                digits_start(sysname@, sysname@.len() as int) == digits_start(sysname@, k as int),
            decreases k,
        {
            k -= 1;
        }
        if k == sysname.len() {
            self.sysnum = None;
        } else {
            self.sysnum = Some(copy_bytes(&sysname, k, sysname.len()));
        }
        self.sysname = sysname;
        Ok(())
    }

    pub fn set_devtype(&mut self, devtype: Vec<u8>)
        ensures
            final(self)@ == old(self)@.set_devtype(devtype@),
    {
        self.put(devtype_key(), copy_bytes(&devtype, 0, devtype.len()));
        proof {
            assert(devtype@.subrange(0, devtype@.len() as int) =~= devtype@);
        }
        self.devtype = devtype;
    }

    pub fn set_subsystem(&mut self, subsystem: Vec<u8>)
        ensures
            final(self)@ == old(self)@.set_subsystem(subsystem@),
    {
        self.put(subsystem_key(), copy_bytes(&subsystem, 0, subsystem.len()));
        proof {
            assert(subsystem@.subrange(0, subsystem@.len() as int) =~= subsystem@);
        }
        self.subsystem_set = true;
        self.subsystem = subsystem;
    }

    pub fn set_devname(&mut self, devname: Vec<u8>)
        ensures
            final(self)@ == old(self)@.set_devname(devname@),
    {
        let full = if devname.len() > 0 && devname[0] == 47 {
            devname
        } else {
            let mut full: Vec<u8> = vec![47u8, 100, 101, 118, 47];
            proof {
                assert(full@ =~= dev_prefix());
            }
            append_bytes(&mut full, &devname);
            full
        };
        self.put(devname_key(), copy_bytes(&full, 0, full.len()));
        proof {
            assert(full@.subrange(0, full@.len() as int) =~= full@);
        }
        self.devname = full;
    }

    /// Sets the device number from the texts of its major and minor
    /// numbers.
    pub fn set_devnum(&mut self, major: Vec<u8>, minor: Vec<u8>) -> (r: Result<(), i32>)
        ensures
            match old(self)@.set_devnum(major@, minor@) {
                Ok(m) => r is Ok && final(self)@ == m,
                Err(e) => r == Err::<(), i32>(e) && final(self)@ == old(self)@,
            },
    {
        proof {
            assert(major@.subrange(0, major@.len() as int) =~= major@);
            assert(minor@.subrange(0, minor@.len() as int) =~= minor@);
        }
        let major_num = match parse_decimal_u64(major.as_slice(), 0, major.len()) {
            Some(n) => n,
            None => {
                return Err(EINVAL);
            },
        };
        let minor_num = match parse_decimal_u64(minor.as_slice(), 0, minor.len()) {
            Some(n) => n,
            None => {
                return Err(EINVAL);
            },
        };
        self.put(major_key(), major);
        self.put(minor_key(), minor);
        self.devnum = makedev(major_num, minor_num);
        Ok(())
    }

    pub fn set_seqnum(&mut self, seqnum: u64)
        ensures
            final(self)@ == old(self)@.set_seqnum(seqnum),
    {
        let mut text: Vec<u8> = Vec::new();
        push_decimal_u64(&mut text, seqnum);
        proof {
            assert(text@ =~= num_digits(seqnum as nat, false));
        }
        self.put(seqnum_key(), text);
        self.seqnum = Some(seqnum);
    }

    pub fn set_seqnum_from_string(&mut self, seqnum_s: &Vec<u8>) -> (r: Result<(), i32>)
        ensures
            match old(self)@.set_seqnum_from_string(seqnum_s@) {
                Ok(m) => r is Ok && final(self)@ == m,
                Err(e) => r == Err::<(), i32>(e) && final(self)@ == old(self)@,
            },
    {
        proof {
            assert(seqnum_s@.subrange(0, seqnum_s@.len() as int) =~= seqnum_s@);
        }
        match parse_decimal_u64(seqnum_s.as_slice(), 0, seqnum_s.len()) {
            Some(n) => {
                self.set_seqnum(n);
                Ok(())
            },
            None => Err(EINVAL),
        }
    }

    pub fn set_action(&mut self, action: DeviceAction)
        ensures
            final(self)@ == old(self)@.set_action(action),
    {
        self.put(action_key(), action.name());
        self.action = Some(action);
    }

    pub fn set_action_from_string(&mut self, action_s: &Vec<u8>) -> (r: Result<(), i32>)
        ensures
            match old(self)@.set_action_from_string(action_s@) {
                Ok(m) => r is Ok && final(self)@ == m,
                Err(e) => r == Err::<(), i32>(e) && final(self)@ == old(self)@,
            },
    {
        match DeviceAction::from_name(action_s) {
            Some(action) => {
                self.set_action(action);
                Ok(())
            },
            None => Err(EINVAL),
        }
    }

    /// Makes the text of the properties anew where they have changed.
    pub fn update_properties_bufs(&mut self)
        ensures
            final(self)@ == old(self)@.update_properties_bufs(),
    {
        if !self.properties_buf_outdated {
            return ;
        }
        let mut text: Vec<u8> = Vec::new();
        let mut i: usize = 0;
        while i < self.properties.len()
            invariant
                i <= self.properties.len(),
                self@ == old(self)@,
                text@ == props_nulstr(props_view(self.properties@), i as int),
            decreases self.properties.len() - i,
        {
            append_bytes(&mut text, &self.properties[i].key);
            text.push(61);
            append_bytes(&mut text, &self.properties[i].value);
            text.push(0);
            proof {
                let props = props_view(self.properties@);
                assert(props[i as int] == (self.properties@[i as int].key@, self.properties@[i as int].value@));
                assert(text@ =~= props_nulstr(props, i as int) + props[i as int].0 + seq![61u8]
                    + props[i as int].1 + seq![0u8]);
            }
            i += 1;
        }
        self.properties_nulstr_len = text.len();
        self.properties_nulstr = text;
        self.properties_buf_outdated = false;
    }

    /// The properties as one text, made anew where they have changed.
    pub fn get_properties_nulstr(&mut self) -> (r: (Vec<u8>, usize))
        ensures
            final(self)@ == old(self)@.update_properties_bufs(),
            r.0@ == final(self)@.properties_nulstr,
            r.1 == final(self)@.properties_nulstr_len,
    {
        self.update_properties_bufs();
        (
            copy_bytes(&self.properties_nulstr, 0, self.properties_nulstr.len()),
            self.properties_nulstr_len,
        )
    }
}

/// The path under `/sys/dev` that leads to the device with the file
/// type in `mode` and the number `devnum`: see [`devnum_syspath`].
pub fn syspath_of_devnum(mode: u32, devnum: u64) -> (r: Result<Vec<u8>, i32>)
    ensures
        match r {
            Ok(path) => devnum_syspath(mode, devnum) == Ok::<Seq<u8>, i32>(path@),
            Err(e) => devnum_syspath(mode, devnum) == Err::<Seq<u8>, i32>(e),
        },
{
    let kind = mode & S_IFMT;
    let mut path: Vec<u8> = if kind == S_IFCHR {
        vec![47u8, 115, 121, 115, 47, 100, 101, 118, 47, 99, 104, 97, 114, 47]
    } else if kind == S_IFBLK {
        vec![47u8, 115, 121, 115, 47, 100, 101, 118, 47, 98, 108, 111, 99, 107, 47]
    } else {
        return Err(ENOTTY);
    };
    let ma = major(devnum);
    if ma == 0 {
        return Err(ENODEV);
    }
    let ghost head = path@;
    push_decimal_u64(&mut path, ma);
    path.push(58);
    push_decimal_u64(&mut path, minor(devnum));
    proof {
        assert(head =~= if kind == S_IFCHR {
            seq![47u8, 115, 121, 115, 47, 100, 101, 118, 47, 99, 104, 97, 114, 47]
        } else {
            seq![47u8, 115, 121, 115, 47, 100, 101, 118, 47, 98, 108, 111, 99, 107, 47]
        });
        assert(path@ =~= devnum_syspath(mode, devnum)->Ok_0);
    }
    Ok(path)
}

impl Default for Device {
    fn default() -> (r: Device)
        ensures
            r@.syspath.len() == 0,
            r@.properties.len() == 0,
            r@.seqnum is None,
            r@.action is None,
    {
        Device::new()
    }
}

/// What reading the text of an event has come to so far: the device,
/// and the texts of the major and the minor number, which are put
/// together at the end.
pub struct EventState {
    pub dev: DeviceModel,
    pub major: Seq<u8>,
    pub minor: Seq<u8>,
}

/// What one line of an event does: the keys that the device has fields
/// for set those fields, the tags are passed over, and any other key
/// becomes a property.
pub open spec fn apply_event_line(st: EventState, key: Seq<u8>, value: Seq<u8>) -> Result<
    EventState,
    i32,
> {
    if key == key_devpath() {
        match st.dev.set_syspath(sys_prefix() + value) {
            Ok(dev) => Ok(EventState { dev, ..st }),
            Err(e) => Err(e),
        }
    } else if key == key_action() {
        match st.dev.set_action_from_string(value) {
            Ok(dev) => Ok(EventState { dev, ..st }),
            Err(e) => Err(e),
        }
    } else if key == key_subsystem() {
        Ok(EventState { dev: st.dev.set_subsystem(value), ..st })
    } else if key == key_devtype() {
        Ok(EventState { dev: st.dev.set_devtype(value), ..st })
    } else if key == key_minor() {
        Ok(EventState { minor: value, ..st })
    } else if key == key_major() {
        Ok(EventState { major: value, ..st })
    } else if key == key_devname() {
        Ok(EventState { dev: st.dev.set_devname(value), ..st })
    } else if key == key_seqnum() {
        match st.dev.set_seqnum_from_string(value) {
            Ok(dev) => Ok(EventState { dev, ..st }),
            Err(e) => Err(e),
        }
    } else if key == key_tags() || key == key_current_tags() {
        Ok(st)
    } else {
        match st.dev.add_property_aux(key, value, false) {
            Ok(dev) => Ok(EventState { dev, ..st }),
            Err(e) => Err(e),
        }
    }
}

/// What the lines of an event from `from` on do, one after another. The
/// lines end with a zero byte each; a line gives a key, `=`, and a
/// value that ends with the line or at a further `=`. The first line
/// without `=` ends the reading, and so does the first line that cannot
/// be applied, as a failure.
pub open spec fn apply_event_lines(st: EventState, s: Seq<u8>, from: int) -> Result<
    EventState,
    i32,
>
    decreases s.len() - from,
    via apply_event_lines_decreases
{
    if from < 0 || from > s.len() {
        Ok(st)
    } else {
        let end = next_pos(s, 0, from);
        let line = s.subrange(from, end);
        let eq = next_pos(line, 61, 0);
        if eq >= line.len() {
            Ok(st)
        } else {
            match apply_event_line(
                st,
                line.subrange(0, eq),
                line.subrange(eq + 1, next_pos(line, 61, eq + 1)),
            ) {
                Err(e) => Err(e),
                Ok(next) => if end >= s.len() {
                    Ok(next)
                } else {
                    apply_event_lines(next, s, end + 1)
                },
            }
        }
    }
}

#[via_fn]
proof fn apply_event_lines_decreases(st: EventState, s: Seq<u8>, from: int) {
    if 0 <= from <= s.len() {
        crate::socket_addr::lemma_next_pos_bounds(s, 0, from);
    }
}

/// The device that the text of an event describes: what its lines do to
/// a device of which nothing is known, then the device number, where
/// the event gave a major number, and the text of the properties.
pub open spec fn device_from_nulstr(s: Seq<u8>) -> Result<DeviceModel, i32> {
    let start = EventState { dev: unknown_device(), major: Seq::empty(), minor: Seq::empty() };
    match apply_event_lines(start, s, 0) {
        Err(e) => Err(e),
        Ok(st) => if st.major.len() > 0 {
            match st.dev.set_devnum(st.major, st.minor) {
                Ok(dev) => Ok(dev.update_properties_bufs()),
                Err(e) => Err(e),
            }
        } else {
            Ok(st.dev.update_properties_bufs())
        },
    }
}

fn find_from(bytes: &Vec<u8>, b: u8, from: usize) -> (r: usize)
    ensures
        r == next_pos(bytes@, b, from as int),
        r <= bytes@.len(),
        from <= r || r == bytes@.len(),
{
    let mut i: usize = from;
    while i < bytes.len()
        invariant
            from <= i,
            next_pos(bytes@, b, from as int) == next_pos(bytes@, b, i as int),
        decreases bytes.len() - i,
    {
        if bytes[i] == b {
            return i;
        }
        i += 1;
    }
    bytes.len()
}

impl Device {
    /// Applies one line of an event: see [`apply_event_line`].
    fn apply_line(&mut self, major: &mut Vec<u8>, minor: &mut Vec<u8>, key: Vec<u8>, value: Vec<u8>)
        -> (r: Result<(), i32>)
        ensures
            match apply_event_line(
                EventState { dev: old(self)@, major: old(major)@, minor: old(minor)@ },
                key@,
                value@,
            ) {
                Ok(st) => r is Ok && final(self)@ == st.dev && final(major)@ == st.major && final(minor)@ == st.minor,
                Err(e) => r == Err::<(), i32>(e),
            },
    {
        if same_bytes(&key, &devpath_key()) {
            let mut path: Vec<u8> = vec![47u8, 115, 121, 115];
            proof {
                assert(path@ =~= sys_prefix());
            }
            append_bytes(&mut path, &value);
            self.set_syspath(path)
        } else if same_bytes(&key, &action_key()) {
            self.set_action_from_string(&value)
        } else if same_bytes(&key, &subsystem_key()) {
            self.set_subsystem(value);
            Ok(())
        } else if same_bytes(&key, &devtype_key()) {
            self.set_devtype(value);
            Ok(())
        } else if same_bytes(&key, &minor_key()) {
            *minor = value;
            Ok(())
        } else if same_bytes(&key, &major_key()) {
            *major = value;
            Ok(())
        } else if same_bytes(&key, &devname_key()) {
            self.set_devname(value);
            Ok(())
        } else if same_bytes(&key, &seqnum_key()) {
            self.set_seqnum_from_string(&value)
        } else if same_bytes(&key, &tags_key()) || same_bytes(&key, &current_tags_key()) {
            Ok(())
        } else {
            self.add_property_internal(key, value)
        }
    }

    /// The device that the text of an event describes: see
    /// [`device_from_nulstr`].
    pub fn from_nulstr(nulstr: &Vec<u8>) -> (r: Result<Device, i32>)
        ensures
            match r {
                Ok(device) => device_from_nulstr(nulstr@) == Ok::<DeviceModel, i32>(device@),
                Err(e) => device_from_nulstr(nulstr@) == Err::<DeviceModel, i32>(e),
            },
    {
        let mut device = Device::new();
        let mut major: Vec<u8> = Vec::new();
        let mut minor: Vec<u8> = Vec::new();
        let ghost start = EventState { dev: device@, major: major@, minor: minor@ };
        let mut pos: usize = 0;
        let mut more = true;
        while more
            invariant
                pos <= nulstr@.len(),
                start == (EventState {
                    dev: unknown_device(),
                    major: Seq::empty(),
                    minor: Seq::empty(),
                }),
                more ==> apply_event_lines(start, nulstr@, 0) == apply_event_lines(
                    EventState { dev: device@, major: major@, minor: minor@ },
                    nulstr@,
                    pos as int,
                ),
                !more ==> apply_event_lines(start, nulstr@, 0) == Ok::<EventState, i32>(
                    EventState { dev: device@, major: major@, minor: minor@ },
                ),
            decreases nulstr@.len() - pos + if more {
                1int
            } else {
                0int
            },
        {
            let end = find_from(nulstr, 0, pos);
            let line = copy_bytes(nulstr, pos, end);
            let eq = find_from(&line, 61, 0);
            if eq >= line.len() {
                more = false;
            } else {
                let stop = find_from(&line, 61, eq + 1);
                let key = copy_bytes(&line, 0, eq);
                let value = copy_bytes(&line, eq + 1, stop);
                match device.apply_line(&mut major, &mut minor, key, value) {
                    Err(e) => {
                        return Err(e);
                    },
                    Ok(()) => {},
                }
                if end >= nulstr.len() {
                    more = false;
                } else {
                    pos = end + 1;
                }
            }
        }
        if major.len() > 0 {
            match device.set_devnum(major, minor) {
                Err(e) => {
                    return Err(e);
                },
                Ok(()) => {},
            }
        }
        device.update_properties_bufs();
        Ok(device)
    }
}

/// The error number for "no such file or directory".
pub const ENOENT: i32 = 2;

/// A whole number with or without a sign in front, within 32 bits.
pub open spec fn parse_i32(s: Seq<u8>) -> Option<int> {
    if s.len() > 0 && s[0] == 45 {
        match parse_num(s.skip(1), false, 0x8000_0000) {
            Some(n) => Some(-(n as int)),
            None => None,
        }
    } else if s.len() > 0 && s[0] == 43 {
        match parse_num(s.skip(1), false, 0x7fff_ffff) {
            Some(n) => Some(n as int),
            None => None,
        }
    } else {
        match parse_num(s, false, 0x7fff_ffff) {
            Some(n) => Some(n as int),
            None => None,
        }
    }
}

/// A decimal number with or without a `+` in front, up to `max`.
pub open spec fn parse_unsigned(s: Seq<u8>, max: nat) -> Option<nat> {
    if s.len() > 0 && s[0] == 43 {
        parse_num(s.skip(1), false, max)
    } else {
        parse_num(s, false, max)
    }
}

/// Whether `pattern` occurs in `s`.
pub open spec fn contains_text(s: Seq<u8>, pattern: Seq<u8>) -> bool {
    exists|i: int|
        0 <= i && i + pattern.len() <= s.len() && #[trigger] s.subrange(i, i + pattern.len())
            == pattern
}

/// Whether `s` begins with `prefix`.
pub open spec fn begins_with(s: Seq<u8>, prefix: Seq<u8>) -> bool {
    s.len() >= prefix.len() && s.subrange(0, prefix.len() as int) == prefix
}

/// The part of the path `s` that comes right before the first part from
/// `from` on that is called `drivers`; `prev` is the part before the one
/// at `from`, if there is one.
pub open spec fn drivers_parent(s: Seq<u8>, from: int, prev: Option<Seq<u8>>) -> Option<Seq<u8>>
    decreases s.len() - from,
    via drivers_parent_decreases
{
    if from < 0 || from > s.len() {
        None
    } else {
        let end = next_pos(s, 47, from);
        let part = s.subrange(from, end);
        if part == seq![100u8, 114, 105, 118, 101, 114, 115] {
            prev
        } else if end >= s.len() {
            None
        } else {
            drivers_parent(s, end + 1, Some(part))
        }
    }
}

#[via_fn]
proof fn drivers_parent_decreases(s: Seq<u8>, from: int, prev: Option<Seq<u8>>) {
    if 0 <= from <= s.len() {
        crate::socket_addr::lemma_next_pos_bounds(s, 47, from);
    }
}

impl DeviceModel {
    /// With the interface index that `text` stands for; the property is
    /// set even where the text is no number.
    pub open spec fn set_ifindex(self, text: Seq<u8>) -> (DeviceModel, Result<(), i32>) {
        let with = self.add_property(key_ifindex(), text);
        match parse_i32(text) {
            Some(n) => (DeviceModel { ifindex: n as i32, ..with }, Ok(())),
            None => (with, Err(EINVAL)),
        }
    }

    /// With the mode that `text` stands for; the property is set even
    /// where the text is no number.
    pub open spec fn set_devmode(self, text: Seq<u8>) -> (DeviceModel, Result<(), i32>) {
        let with = self.add_property(key_devmode(), text);
        match parse_unsigned(text, 0xffff_ffff) {
            Some(n) => (DeviceModel { devmode: n as u32, ..with }, Ok(())),
            None => (with, Err(EINVAL)),
        }
    }

    /// With the disk sequence number that `text` stands for; the
    /// property is set even where the text is no number.
    pub open spec fn set_diskseq(self, text: Seq<u8>) -> (DeviceModel, Result<(), i32>) {
        let with = self.add_property(key_diskseq(), text);
        match parse_unsigned(text, 0xffff_ffff_ffff_ffff) {
            Some(n) => (DeviceModel { diskseq: n as u64, ..with }, Ok(())),
            None => (with, Err(EINVAL)),
        }
    }

    /// In the subsystem that owns the driver: the part of the path
    /// before the part called `drivers`, which may not be empty.
    pub open spec fn set_drivers_subsystem(self) -> Result<DeviceModel, i32> {
        match drivers_parent(self.devpath, 0, None) {
            Some(parent) => if parent.len() == 0 {
                Err(EINVAL)
            } else {
                Ok(DeviceModel { driver_subsystem: parent, ..self.set_subsystem(parent) })
            },
            None => Err(EINVAL),
        }
    }

    /// With the subsystem worked out, where it is not known yet. `link`
    /// is the name that the device's `subsystem` link leads to, empty
    /// where there is no link. Without a link, the path tells: a module,
    /// a driver, or a class or bus, which is a subsystem itself.
    pub open spec fn find_subsystem(self, link: Seq<u8>) -> Result<DeviceModel, i32> {
        if self.subsystem_set {
            Ok(self)
        } else if link.len() > 0 {
            Ok(self.set_subsystem(link))
        } else if begins_with(self.devpath, seq![47u8, 109, 111, 100, 117, 108, 101, 47]) {
            Ok(self.set_subsystem(seq![109u8, 111, 100, 117, 108, 101]))
        } else if contains_text(self.devpath, seq![47u8, 100, 114, 105, 118, 101, 114, 115]) {
            self.set_drivers_subsystem()
        } else if begins_with(self.devpath, seq![47u8, 99, 108, 97, 115, 115, 47]) || begins_with(
            self.devpath,
            seq![47u8, 98, 117, 115, 47],
        ) {
            Ok(self.set_subsystem(seq![115u8, 117, 98, 115, 121, 115, 116, 101, 109]))
        } else {
            Ok(DeviceModel { subsystem_set: true, ..self })
        }
    }
}

/// What reading a device's `uevent` file has come to so far.
pub open spec fn apply_uevent_line(st: EventState, key: Seq<u8>, value: Seq<u8>) -> (
    EventState,
    Result<(), i32>,
) {
    if key == key_devtype() {
        (EventState { dev: st.dev.set_devtype(value), ..st }, Ok(()))
    } else if key == key_ifindex() {
        (EventState { dev: st.dev.set_ifindex(value).0, ..st }, st.dev.set_ifindex(value).1)
    } else if key == key_devname() {
        (EventState { dev: st.dev.set_devname(value), ..st }, Ok(()))
    } else if key == key_devmode() {
        (EventState { dev: st.dev.set_devmode(value).0, ..st }, st.dev.set_devmode(value).1)
    } else if key == key_diskseq() {
        (EventState { dev: st.dev.set_diskseq(value).0, ..st }, st.dev.set_diskseq(value).1)
    } else if key == key_major() {
        (EventState { major: value, ..st }, Ok(()))
    } else if key == key_minor() {
        (EventState { minor: value, ..st }, Ok(()))
    } else {
        (st, Ok(()))
    }
}

/// What the lines of a `uevent` file from `from` on do. The lines end
/// with a line feed each and are read as those of an event are; the
/// first line without `=` ends the reading, and the first line that
/// cannot be applied ends it as a failure, with what was applied before.
pub open spec fn apply_uevent_lines(st: EventState, s: Seq<u8>, from: int) -> (
    EventState,
    Result<(), i32>,
)
    decreases s.len() - from,
    via apply_uevent_lines_decreases
{
    if from < 0 || from > s.len() {
        (st, Ok(()))
    } else {
        let end = next_pos(s, 10, from);
        let line = s.subrange(from, end);
        let eq = next_pos(line, 61, 0);
        if eq >= line.len() {
            (st, Ok(()))
        } else {
            let applied = apply_uevent_line(
                st,
                line.subrange(0, eq),
                line.subrange(eq + 1, next_pos(line, 61, eq + 1)),
            );
            if applied.1 is Err || end >= s.len() {
                applied
            } else {
                apply_uevent_lines(applied.0, s, end + 1)
            }
        }
    }
}

#[via_fn]
proof fn apply_uevent_lines_decreases(st: EventState, s: Seq<u8>, from: int) {
    if 0 <= from <= s.len() {
        crate::socket_addr::lemma_next_pos_bounds(s, 10, from);
    }
}

/// The device after its `uevent` file, whose text is `s`, has been
/// read: what the lines do, then the device number, which the file must
/// give. A device whose file has been read is left as it is.
pub open spec fn uevent_read(dev: DeviceModel, s: Seq<u8>) -> (DeviceModel, Result<(), i32>) {
    if dev.uevent_loaded {
        (dev, Ok(()))
    } else {
        let lines = apply_uevent_lines(
            EventState { dev, major: Seq::empty(), minor: Seq::empty() },
            s,
            0,
        );
        match lines.1 {
            Err(e) => (lines.0.dev, Err(e)),
            Ok(()) => match lines.0.dev.set_devnum(lines.0.major, lines.0.minor) {
                Err(e) => (lines.0.dev, Err(e)),
                Ok(with) => (DeviceModel { uevent_loaded: true, ..with }, Ok(())),
            },
        }
    }
}

fn has_prefix(s: &Vec<u8>, prefix: &Vec<u8>) -> (r: bool)
    ensures
        r == begins_with(s@, prefix@),
{
    if s.len() < prefix.len() {
        return false;
    }
    let head = copy_bytes(s, 0, prefix.len());
    same_bytes(&head, prefix)
}

fn has_text(s: &Vec<u8>, pattern: &Vec<u8>) -> (r: bool)
    ensures
        r == contains_text(s@, pattern@),
{
    if s.len() < pattern.len() {
        return false;
    }
    let last = s.len() - pattern.len();
    let mut i: usize = 0;
    loop
        invariant
            i <= last,
            last + pattern@.len() == s@.len(),
            s@.len() <= usize::MAX,
            pattern@.len() == pattern.len(),
            forall|k: int| 0 <= k < i ==> #[trigger] s@.subrange(k, k + pattern@.len()) != pattern@,
        decreases last - i,
    {
        let part = copy_bytes(s, i, i + pattern.len());
        if same_bytes(&part, pattern) {
            return true;
        }
        if i == last {
            return false;
        }
        i += 1;
    }
}

fn read_i32(text: &Vec<u8>) -> (r: Option<i32>)
    ensures
        match r {
            Some(n) => parse_i32(text@) == Some(n as int),
            None => parse_i32(text@) is None,
        },
{
    proof {
        assert(text@.subrange(0, text@.len() as int) =~= text@);
        if text@.len() > 0 {
            assert(text@.subrange(1, text@.len() as int) =~= text@.skip(1));
        }
    }
    if text.len() > 0 && text[0] == 45 {
        match crate::text_num::parse_number(text.as_slice(), 1, text.len(), false, 0x8000_0000) {
            Some(n) => if n == 0x8000_0000 {
                Some(i32::MIN)
            } else {
                Some(0 - (n as i32))
            },
            None => None,
        }
    } else {
        let from: usize = if text.len() > 0 && text[0] == 43 {
            1
        } else {
            0
        };
        match crate::text_num::parse_number(text.as_slice(), from, text.len(), false, 0x7fff_ffff) {
            Some(n) => Some(n as i32),
            None => None,
        }
    }
}

fn read_unsigned(text: &Vec<u8>) -> (r: Option<u64>)
    ensures
        match r {
            Some(n) => parse_unsigned(text@, 0xffff_ffff_ffff_ffff) == Some(n as nat),
            None => parse_unsigned(text@, 0xffff_ffff_ffff_ffff) is None,
        },
{
    proof {
        assert(text@.subrange(0, text@.len() as int) =~= text@);
        if text@.len() > 0 {
            assert(text@.subrange(1, text@.len() as int) =~= text@.skip(1));
        }
    }
    let from: usize = if text.len() > 0 && text[0] == 43 {
        1
    } else {
        0
    };
    parse_decimal_u64(text.as_slice(), from, text.len())
}

impl Device {
    pub fn set_ifindex(&mut self, ifindex: Vec<u8>) -> (r: Result<(), i32>)
        ensures
            final(self)@ == old(self)@.set_ifindex(ifindex@).0,
            r == old(self)@.set_ifindex(ifindex@).1,
    {
        let parsed = read_i32(&ifindex);
        self.put(ifindex_key(), ifindex);
        match parsed {
            Some(n) => {
                self.ifindex = n;
                Ok(())
            },
            None => Err(EINVAL),
        }
    }

    pub fn set_devmode(&mut self, devmode: Vec<u8>) -> (r: Result<(), i32>)
        ensures
            final(self)@ == old(self)@.set_devmode(devmode@).0,
            r == old(self)@.set_devmode(devmode@).1,
    {
        let parsed = read_unsigned(&devmode);
        proof {
            crate::text_num::lemma_parse_num_max(
                if devmode@.len() > 0 && devmode@[0] == 43 {
                    devmode@.skip(1)
                } else {
                    devmode@
                },
                0xffff_ffff,
                0xffff_ffff_ffff_ffff,
            );
        }
        self.put(devmode_key(), devmode);
        match parsed {
            Some(n) => {
                if n > 0xffff_ffff {
                    return Err(EINVAL);
                }
                self.devmode = n as u32;
                Ok(())
            },
            None => Err(EINVAL),
        }
    }

    pub fn set_diskseq(&mut self, diskseq: Vec<u8>) -> (r: Result<(), i32>)
        ensures
            final(self)@ == old(self)@.set_diskseq(diskseq@).0,
            r == old(self)@.set_diskseq(diskseq@).1,
    {
        let parsed = read_unsigned(&diskseq);
        self.put(diskseq_key(), diskseq);
        match parsed {
            Some(n) => {
                self.diskseq = n;
                Ok(())
            },
            None => Err(EINVAL),
        }
    }

    /// Works out the subsystem of a driver from its path.
    pub fn set_drivers_subsystem(&mut self) -> (r: Result<(), i32>)
        ensures
            match old(self)@.set_drivers_subsystem() {
                Ok(m) => r is Ok && final(self)@ == m,
                Err(e) => r == Err::<(), i32>(e) && final(self)@ == old(self)@,
            },
    {
        let drivers: Vec<u8> = vec![100u8, 114, 105, 118, 101, 114, 115];
        proof {
            assert(drivers@ =~= seq![100u8, 114, 105, 118, 101, 114, 115]);
        }
        let mut prev: Option<Vec<u8>> = None;
        let mut pos: usize = 0;
        let mut found: Option<Vec<u8>> = None;
        let mut more = true;
        while more
            invariant
                pos <= self.devpath@.len(),
                self@ == old(self)@,
                drivers@ == seq![100u8, 114, 105, 118, 101, 114, 115],
                more ==> found is None && drivers_parent(old(self)@.devpath, 0, None)
                    == drivers_parent(
                    self.devpath@,
                    pos as int,
                    match prev {
                        Some(p) => Some(p@),
                        None => None,
                    },
                ),
                !more ==> drivers_parent(old(self)@.devpath, 0, None) == match found {
                    Some(p) => Some(p@),
                    None => None,
                },
            decreases self.devpath@.len() - pos + if more {
                1int
            } else {
                0int
            },
        {
            let end = find_from(&self.devpath, 47, pos);
            let part = copy_bytes(&self.devpath, pos, end);
            if same_bytes(&part, &drivers) {
                found = prev;
                prev = None;
                more = false;
            } else if end >= self.devpath.len() {
                more = false;
            } else {
                prev = Some(part);
                pos = end + 1;
            }
        }
        let subsystem = match found {
            Some(parent) => parent,
            None => {
                return Err(EINVAL);
            },
        };
        if subsystem.len() == 0 {
            return Err(EINVAL);
        }
        self.set_subsystem(copy_bytes(&subsystem, 0, subsystem.len()));
        proof {
            assert(subsystem@.subrange(0, subsystem@.len() as int) =~= subsystem@);
        }
        self.driver_subsystem = subsystem;
        Ok(())
    }

    /// The subsystem of the device, worked out where it is not known
    /// yet: see [`DeviceModel::find_subsystem`]. A device that turns out
    /// to have none is answered with "no such file or directory".
    pub fn get_subsystem(&mut self, link: Vec<u8>) -> (r: Result<Vec<u8>, i32>)
        ensures
            match old(self)@.find_subsystem(link@) {
                Err(e) => r == Err::<Vec<u8>, i32>(e) && final(self)@ == old(self)@,
                Ok(m) => final(self)@ == m && if m.subsystem.len() > 0 {
                    r is Ok && r->Ok_0@ == m.subsystem
                } else {
                    r == Err::<Vec<u8>, i32>(ENOENT)
                },
            },
    {
        if !self.subsystem_set {
            let module_dir: Vec<u8> = vec![47u8, 109, 111, 100, 117, 108, 101, 47];
            let drivers_part: Vec<u8> = vec![47u8, 100, 114, 105, 118, 101, 114, 115];
            let class_dir: Vec<u8> = vec![47u8, 99, 108, 97, 115, 115, 47];
            let bus_dir: Vec<u8> = vec![47u8, 98, 117, 115, 47];
            proof {
                assert(module_dir@ =~= seq![47u8, 109, 111, 100, 117, 108, 101, 47]);
                assert(drivers_part@ =~= seq![47u8, 100, 114, 105, 118, 101, 114, 115]);
                assert(class_dir@ =~= seq![47u8, 99, 108, 97, 115, 115, 47]);
                assert(bus_dir@ =~= seq![47u8, 98, 117, 115, 47]);
            }
            if link.len() > 0 {
                self.set_subsystem(link);
            } else if has_prefix(&self.devpath, &module_dir) {
                let name: Vec<u8> = vec![109u8, 111, 100, 117, 108, 101];
                proof {
                    assert(name@ =~= seq![109u8, 111, 100, 117, 108, 101]);
                }
                self.set_subsystem(name);
            } else if has_text(&self.devpath, &drivers_part) {
                match self.set_drivers_subsystem() {
                    Err(e) => {
                        return Err(e);
                    },
                    Ok(()) => {},
                }
            } else if has_prefix(&self.devpath, &class_dir) || has_prefix(&self.devpath, &bus_dir) {
                let name: Vec<u8> = vec![115u8, 117, 98, 115, 121, 115, 116, 101, 109];
                proof {
                    assert(name@ =~= seq![115u8, 117, 98, 115, 121, 115, 116, 101, 109]);
                }
                self.set_subsystem(name);
            } else {
                self.subsystem_set = true;
            }
        }
        if self.subsystem.len() > 0 {
            Ok(copy_bytes(&self.subsystem, 0, self.subsystem.len()))
        } else {
            Err(ENOENT)
        }
    }

    fn apply_uevent(&mut self, major: &mut Vec<u8>, minor: &mut Vec<u8>, key: Vec<u8>, value: Vec<u8>)
        -> (r: Result<(), i32>)
        ensures
            match apply_uevent_line(
                (EventState { dev: old(self)@, major: old(major)@, minor: old(minor)@ }),
                key@,
                value@,
            ) {
                (st, result) => r == result && final(self)@ == st.dev && final(major)@ == st.major
                    && final(minor)@ == st.minor,
            },
    {
        if same_bytes(&key, &devtype_key()) {
            self.set_devtype(value);
            Ok(())
        } else if same_bytes(&key, &ifindex_key()) {
            self.set_ifindex(value)
        } else if same_bytes(&key, &devname_key()) {
            self.set_devname(value);
            Ok(())
        } else if same_bytes(&key, &devmode_key()) {
            self.set_devmode(value)
        } else if same_bytes(&key, &diskseq_key()) {
            self.set_diskseq(value)
        } else if same_bytes(&key, &major_key()) {
            *major = value;
            Ok(())
        } else if same_bytes(&key, &minor_key()) {
            *minor = value;
            Ok(())
        } else {
            Ok(())
        }
    }

    /// Takes up what the device's `uevent` file, whose text is `buf`,
    /// says of it: see [`uevent_read`].
    pub fn read_uevent(&mut self, buf: &Vec<u8>) -> (r: Result<(), i32>)
        ensures
            final(self)@ == uevent_read(old(self)@, buf@).0,
            r == uevent_read(old(self)@, buf@).1,
    {
        if self.uevent_loaded {
            return Ok(());
        }
        let mut major: Vec<u8> = Vec::new();
        let mut minor: Vec<u8> = Vec::new();
        let ghost start = EventState { dev: self@, major: major@, minor: minor@ };
        let mut pos: usize = 0;
        let mut more = true;
        while more
            invariant
                pos <= buf@.len(),
                start == (EventState {
                    dev: old(self)@,
                    major: Seq::empty(),
                    minor: Seq::empty(),
                }),
                !old(self)@.uevent_loaded,
                more ==> apply_uevent_lines(start, buf@, 0) == apply_uevent_lines(
                    EventState { dev: self@, major: major@, minor: minor@ },
                    buf@,
                    pos as int,
                ),
                !more ==> apply_uevent_lines(start, buf@, 0) == (
                    EventState { dev: self@, major: major@, minor: minor@ },
                    Ok::<(), i32>(()),
                ),
            decreases buf@.len() - pos + if more {
                1int
            } else {
                0int
            },
        {
            let end = find_from(buf, 10, pos);
            let line = copy_bytes(buf, pos, end);
            let eq = find_from(&line, 61, 0);
            if eq >= line.len() {
                more = false;
            } else {
                let stop = find_from(&line, 61, eq + 1);
                let key = copy_bytes(&line, 0, eq);
                let value = copy_bytes(&line, eq + 1, stop);
                match self.apply_uevent(&mut major, &mut minor, key, value) {
                    Err(e) => {
                        return Err(e);
                    },
                    Ok(()) => {},
                }
                if end >= buf.len() {
                    more = false;
                } else {
                    pos = end + 1;
                }
            }
        }
        match self.set_devnum(major, minor) {
            Err(e) => {
                return Err(e);
            },
            Ok(()) => {},
        }
        self.uevent_loaded = true;
        Ok(())
    }

    /// The device number, which must have been read and have a major
    /// number.
    pub fn get_devnum(&self) -> (r: Result<u64, i32>)
        ensures
            r == if major_spec(self@.devnum) == 0 {
                Err::<u64, i32>(ENOENT)
            } else {
                Ok(self@.devnum)
            },
    {
        if major(self.devnum) == 0 {
            return Err(ENOENT);
        }
        Ok(self.devnum)
    }
}

/// "Not a directory".
pub const ENOTDIR: i32 = 20;

/// What the file system shows at a path.
#[derive(Clone, Copy, PartialEq, Eq, Debug, Structural)]
pub struct PathFacts {
    /// The path leads to a directory.
    pub is_dir: bool,
    /// The directory holds a file `uevent`.
    pub has_uevent: bool,
}

/// The directory `/sys/devices`.
pub open spec fn devices_dir() -> Seq<u8> {
    seq![47u8, 115, 121, 115, 47, 100, 101, 118, 105, 99, 101, 115]
}

/// The word `block`: the subsystem of the block devices.
pub open spec fn block_word() -> Seq<u8> {
    seq![98u8, 108, 111, 99, 107]
}

/// Whether `path` is the directory `dir` or lies below it.
pub open spec fn path_within(path: Seq<u8>, dir: Seq<u8>) -> bool {
    path == dir || (path.len() > dir.len() && path.subrange(0, dir.len() as int) == dir
        && path[dir.len() as int] == 47)
}

/// Why a path, resolved to its true form, is not taken for a device's,
/// if it is not. It must lie within `/sys`. Within `/sys/devices` it must
/// be a directory that holds a `uevent` file; elsewhere a directory,
/// and not `/sys` itself.
pub open spec fn syspath_errno(path: Seq<u8>, facts: PathFacts) -> Option<i32> {
    if !path_within(path, sys_prefix()) {
        Some(EINVAL)
    } else if path_within(path, devices_dir()) {
        if !facts.is_dir {
            Some(ENOTDIR)
        } else if !facts.has_uevent {
            Some(ENOENT)
        } else {
            None
        }
    } else if !facts.is_dir || path == sys_prefix() {
        Some(ENODEV)
    } else {
        None
    }
}

/// The directory above `path`, where a device may be looked for: what
/// stands before the last `/` of the path. Above `/`, and at `/sys`,
/// there is none.
pub open spec fn parent_syspath(path: Seq<u8>) -> Result<Seq<u8>, i32> {
    match last_slash(path, path.len() as int) {
        None => if path.len() == 0 {
            Err(ENODEV)
        } else {
            Ok(Seq::empty())
        },
        Some(i) => if path.len() == 1 {
            Err(ENODEV)
        } else if i == 0 {
            Ok(seq![47u8])
        } else if path.subrange(0, i) == sys_prefix() {
            Err(ENODEV)
        } else {
            Ok(path.subrange(0, i))
        },
    }
}

impl DeviceModel {
    /// At the path `path`, after what the file system shows there has
    /// been held against it.
    pub open spec fn set_syspath_checked(self, path: Seq<u8>, facts: PathFacts) -> Result<
        DeviceModel,
        i32,
    > {
        match syspath_errno(path, facts) {
            Some(e) => Err(e),
            None => self.set_syspath(path),
        }
    }

    /// Held against the node that it was found for: the device has the
    /// number `devnum`, and its subsystem is `block` exactly if `mode` is
    /// that of a block device. The subsystem is worked out on the way,
    /// with `link` as in [`DeviceModel::find_subsystem`].
    pub open spec fn check_node(self, mode: u32, devnum: u64, link: Seq<u8>) -> (
        DeviceModel,
        Result<(), i32>,
    ) {
        if major_spec(self.devnum) == 0 {
            (self, Err(ENOENT))
        } else if self.devnum != devnum {
            (self, Err(EINVAL))
        } else {
            match self.find_subsystem(link) {
                Err(e) => (self, Err(e)),
                Ok(m) => if m.subsystem.len() == 0 {
                    (m, Err(ENOENT))
                } else if (m.subsystem == block_word()) != ((mode & S_IFMT) == S_IFBLK) {
                    (m, Err(EINVAL))
                } else {
                    (m, Ok(()))
                },
            }
        }
    }
}

/// A path that passes the test is taken: it then lies under `/sys/`.
pub proof fn lemma_checked_path_is_set(dev: DeviceModel, path: Seq<u8>, facts: PathFacts)
    requires
        syspath_errno(path, facts) is None,
    ensures
        dev.set_syspath_checked(path, facts) is Ok,
        dev.set_syspath_checked(path, facts)->Ok_0.syspath == path,
{
    let sys = sys_prefix();
    assert(sys.len() == 4);
    assert(path != sys);
    assert(path.len() > 4 && path.subrange(0, 4) == sys && path[4] == 47);
}

fn is_within(path: &Vec<u8>, dir: &Vec<u8>) -> (r: bool)
    ensures
        r == path_within(path@, dir@),
{
    if same_bytes(path, dir) {
        return true;
    }
    if path.len() <= dir.len() {
        return false;
    }
    let head = copy_bytes(path, 0, dir.len());
    same_bytes(&head, dir) && path[dir.len()] == 47
}

/// The text `/dev`.
pub open spec fn dev_dir() -> Seq<u8> {
    seq![47u8, 100, 101, 118]
}

/// The text `/sys/`.
pub open spec fn sys_dir_slash() -> Seq<u8> {
    seq![47u8, 115, 121, 115, 47]
}

/// Whether a path as it was given may be looked up as a device's: a
/// strict search takes only what begins with `/sys/`.
pub fn syspath_admitted(path: &Vec<u8>, strict: bool) -> (r: bool)
    ensures
        r == (!strict || begins_with(path@, sys_dir_slash())),
{
    let sys: Vec<u8> = vec![47u8, 115, 121, 115, 47];
    proof {
        assert(sys@ =~= sys_dir_slash());
    }
    !strict || has_prefix(path, &sys)
}

/// Whether a path names a device node: it begins with `/dev`.
pub fn names_node(path: &Vec<u8>) -> (r: bool)
    ensures
        r == begins_with(path@, dev_dir()),
{
    let dev: Vec<u8> = vec![47u8, 100, 101, 118];
    proof {
        assert(dev@ =~= dev_dir());
    }
    has_prefix(path, &dev)
}

/// The directory above `path` where a device may be looked for; "no
/// such device" where there is none.
pub fn parent_of_syspath(path: &Vec<u8>) -> (r: Result<Vec<u8>, i32>)
    ensures
        match parent_syspath(path@) {
            Ok(p) => r is Ok && r->Ok_0@ == p,
            Err(e) => r == Err::<Vec<u8>, i32>(e),
        },
{
    match find_last_slash(path) {
        None => {
            if path.len() == 0 {
                Err(ENODEV)
            } else {
                let none: Vec<u8> = Vec::new();
                proof {
                    assert(none@ =~= Seq::<u8>::empty());
                }
                Ok(none)
            }
        },
        Some(i) => {
            if path.len() == 1 {
                Err(ENODEV)
            } else if i == 0 {
                let root: Vec<u8> = vec![47u8];
                proof {
                    assert(root@ =~= seq![47u8]);
                }
                Ok(root)
            } else {
                let parent = copy_bytes(path, 0, i);
                let sys: Vec<u8> = vec![47u8, 115, 121, 115];
                proof {
                    assert(sys@ =~= sys_prefix());
                }
                if same_bytes(&parent, &sys) {
                    Err(ENODEV)
                } else {
                    Ok(parent)
                }
            }
        },
    }
}

impl Device {
    /// Sets the path of the device to `path`, the true form of a path,
    /// where the file system shows a device there: see
    /// [`syspath_errno`].
    pub fn set_syspath_checked(&mut self, path: Vec<u8>, facts: PathFacts) -> (r: Result<(), i32>)
        ensures
            match old(self)@.set_syspath_checked(path@, facts) {
                Ok(m) => r is Ok && final(self)@ == m,
                Err(e) => r == Err::<(), i32>(e) && final(self)@ == old(self)@,
            },
    {
        let sys: Vec<u8> = vec![47u8, 115, 121, 115];
        let devices: Vec<u8> = vec![47u8, 115, 121, 115, 47, 100, 101, 118, 105, 99, 101, 115];
        proof {
            assert(sys@ =~= sys_prefix());
            assert(devices@ =~= devices_dir());
        }
        if !is_within(&path, &sys) {
            return Err(EINVAL);
        }
        if is_within(&path, &devices) {
            if !facts.is_dir {
                return Err(ENOTDIR);
            }
            if !facts.has_uevent {
                return Err(ENOENT);
            }
        } else if !facts.is_dir || same_bytes(&path, &sys) {
            return Err(ENODEV);
        }
        self.set_syspath(path)
    }

    /// Holds the device against the node that it was found for: see
    /// [`DeviceModel::check_node`].
    pub fn check_node(&mut self, mode: u32, devnum: u64, link: Vec<u8>) -> (r: Result<(), i32>)
        ensures
            final(self)@ == old(self)@.check_node(mode, devnum, link@).0,
            r == old(self)@.check_node(mode, devnum, link@).1,
    {
        match self.get_devnum() {
            Err(e) => {
                return Err(e);
            },
            Ok(found) => {
                if found != devnum {
                    return Err(EINVAL);
                }
            },
        }
        let subsystem = match self.get_subsystem(link) {
            Err(e) => {
                return Err(e);
            },
            Ok(s) => s,
        };
        let block: Vec<u8> = vec![98u8, 108, 111, 99, 107];
        proof {
            assert(block@ =~= block_word());
        }
        if same_bytes(&subsystem, &block) != ((mode & S_IFMT) == S_IFBLK) {
            return Err(EINVAL);
        }
        Ok(())
    }
}

/// What a search for the device above a device has come to: whether it
/// is settled, so that it need not be made again, and what is answered
/// to the one who asked. That there is no device above settles it, and
/// is answered as "no such file or directory"; any other failure is
/// passed on and leaves the search open.
pub open spec fn parent_answer(searched: Result<(), i32>) -> (bool, Result<(), i32>) {
    match searched {
        Ok(()) => (true, Ok(())),
        Err(e) => if e == ENODEV {
            (true, Err(ENOENT))
        } else {
            (false, Err(e))
        },
    }
}

/// Computes [`parent_answer`].
pub fn parent_search_answer(searched: Result<(), i32>) -> (r: (bool, Result<(), i32>))
    ensures
        r == parent_answer(searched),
{
    match searched {
        Ok(()) => (true, Ok(())),
        Err(e) => if e == ENODEV {
            (true, Err(ENOENT))
        } else {
            (false, Err(e))
        },
    }
}

} // verus!
