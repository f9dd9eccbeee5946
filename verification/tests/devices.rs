use sysmaster::device::{syspath_of_devnum, Device, DeviceAction, ENOENT};
use sysmaster::devnum_util::{
    device_path_parse_major_minor, device_path_parse_major_minor_bytes, EINVAL, ENODEV, ENOTTY,
    S_IFBLK, S_IFCHR,
};
use sysmaster::worker_manager::{
    parse_control_cmd, parse_worker_ack, ControlCmd, Worker, WorkerAck, WorkerManager,
    WorkerMessage, WorkerOp, WorkerState,
};

fn makedev(major: u64, minor: u64) -> u64 {
    ((major & 0xffff_f000) << 32)
        | ((major & 0x0000_0fff) << 8)
        | ((minor & 0xffff_ff00) << 12)
        | (minor & 0x0000_00ff)
}

#[test]
fn device_path_names_type_and_number() {
    assert_eq!(
        device_path_parse_major_minor("/dev/block/8:0".to_string()),
        Ok((S_IFBLK, makedev(8, 0)))
    );
    assert_eq!(
        device_path_parse_major_minor("/dev/char/7:129".to_string()),
        Ok((S_IFCHR, makedev(7, 129)))
    );
    assert_eq!(makedev(8, 1), 0x801);
    assert_eq!(
        device_path_parse_major_minor("/dev/block/259:1048575".to_string()),
        Ok((S_IFBLK, makedev(259, 1048575)))
    );
    assert_eq!(
        device_path_parse_major_minor("/dev/block/x/+8:16:99".to_string()),
        Ok((S_IFBLK, makedev(8, 16)))
    );
    assert_eq!(device_path_parse_major_minor("/dev/sda".to_string()), Err(ENODEV));
    assert_eq!(device_path_parse_major_minor("/dev/block".to_string()), Err(ENODEV));
    assert_eq!(device_path_parse_major_minor("/dev/block/8".to_string()), Err(EINVAL));
    assert_eq!(device_path_parse_major_minor("/dev/block/8:".to_string()), Err(EINVAL));
    assert_eq!(device_path_parse_major_minor("/dev/block/:8".to_string()), Err(EINVAL));
    assert_eq!(device_path_parse_major_minor("/dev/block/a:b".to_string()), Err(EINVAL));
    assert_eq!(device_path_parse_major_minor("/dev/block/8:0/".to_string()), Err(EINVAL));
    assert_eq!(
        device_path_parse_major_minor_bytes(b"/dev/char/18446744073709551616:0"),
        Err(EINVAL)
    );
}

#[test]
fn syspath_of_a_device_number() {
    assert_eq!(syspath_of_devnum(S_IFBLK, makedev(8, 0)), Ok(b"/sys/dev/block/8:0".to_vec()));
    assert_eq!(
        syspath_of_devnum(S_IFCHR | 0o644, makedev(4095, 300)),
        Ok(b"/sys/dev/char/4095:300".to_vec())
    );
    assert_eq!(
        syspath_of_devnum(S_IFBLK, makedev(0x12345, 0xabcdef)),
        Ok(b"/sys/dev/block/74565:11259375".to_vec())
    );
    assert_eq!(syspath_of_devnum(0o100000, makedev(8, 0)), Err(ENOTTY));
    assert_eq!(syspath_of_devnum(S_IFBLK, makedev(0, 5)), Err(ENODEV));
}

#[test]
fn new_device_knows_nothing() {
    let d = Device::new();
    assert_eq!(d.watch_handle, -1);
    assert_eq!(d.devmode, u32::MAX);
    assert_eq!(d.get_seqnum(), None);
    assert_eq!(d.get_syspath(), None);
    assert_eq!(d.get_devpath(), None);
    assert!(d.properties.is_empty());
    assert!(Device::default().properties.is_empty());
}

#[test]
fn properties_are_set_replaced_and_removed() {
    let mut d = Device::new();
    assert_eq!(d.add_property_internal(b"A".to_vec(), b"1".to_vec()), Ok(()));
    assert_eq!(d.add_property_internal(b"B".to_vec(), b"2".to_vec()), Ok(()));
    assert_eq!(d.add_property_internal(b"A".to_vec(), b"3".to_vec()), Ok(()));
    assert!(d.properties_buf_outdated);
    let (text, len) = d.get_properties_nulstr();
    assert_eq!(text, b"A=3\0B=2\0".to_vec());
    assert_eq!(len, 8);
    assert!(!d.properties_buf_outdated);
    assert_eq!(d.add_property_internal(b"A".to_vec(), vec![]), Ok(()));
    assert_eq!(d.add_property_internal(b"Z".to_vec(), vec![]), Ok(()));
    assert_eq!(d.get_properties_nulstr().0, b"B=2\0".to_vec());
    assert_eq!(d.add_property_internal(vec![], b"x".to_vec()), Err(EINVAL));
    assert_eq!(d.add_property_aux(b"K".to_vec(), b"v".to_vec(), true), Ok(()));
    assert_eq!(d.properties_db.len(), 1);
    assert_eq!(d.properties.len(), 1);
    assert!(!d.properties_buf_outdated);
}

#[test]
fn syspath_must_lie_under_sys() {
    let mut d = Device::new();
    assert_eq!(d.set_syspath(b"/sys/devices/virtual/tty1".to_vec()), Ok(()));
    assert_eq!(d.get_syspath(), Some(&b"/sys/devices/virtual/tty1".to_vec()));
    assert_eq!(d.get_devpath(), Some(&b"/devices/virtual/tty1".to_vec()));
    assert_eq!(d.get_properties_nulstr().0, b"DEVPATH=/devices/virtual/tty1\0".to_vec());
    assert_eq!(d.set_syspath(b"/sys".to_vec()), Err(EINVAL));
    assert_eq!(d.set_syspath(b"/system/x".to_vec()), Err(EINVAL));
    assert_eq!(d.set_syspath(b"/dev/sda".to_vec()), Err(EINVAL));
    assert_eq!(d.get_sysname(), Some(b"tty1".to_vec()));
    assert_eq!(d.sysnum, Some(b"1".to_vec()));
}

#[test]
fn sysname_and_sysnum_come_from_the_path() {
    let mut d = Device::new();
    assert_eq!(d.set_sysname_and_sysnum(), Err(EINVAL));
    assert_eq!(d.get_sysname(), None);
    d.set_syspath(b"/sys/block/cciss!c0d12".to_vec()).unwrap();
    assert_eq!(d.set_sysname_and_sysnum(), Ok(()));
    assert_eq!(d.sysname, b"cciss/c0d12".to_vec());
    assert_eq!(d.sysnum, Some(b"12".to_vec()));
    d.set_syspath(b"/sys/class/net/lo".to_vec()).unwrap();
    d.set_sysname_and_sysnum().unwrap();
    assert_eq!(d.sysname, b"lo".to_vec());
    assert_eq!(d.sysnum, None);
    d.set_syspath(b"/sys/bus/42".to_vec()).unwrap();
    d.set_sysname_and_sysnum().unwrap();
    assert_eq!(d.sysnum, Some(b"42".to_vec()));
}

#[test]
fn device_fields_are_set_with_their_properties() {
    let mut d = Device::new();
    d.set_devname(b"sda".to_vec());
    assert_eq!(d.devname, b"/dev/sda".to_vec());
    d.set_devname(b"/dev/sdb".to_vec());
    assert_eq!(d.devname, b"/dev/sdb".to_vec());
    d.set_devtype(b"disk".to_vec());
    d.set_subsystem(b"block".to_vec());
    assert!(d.subsystem_set);
    assert_eq!(d.set_devnum(b"8".to_vec(), b"16".to_vec()), Ok(()));
    assert_eq!(d.devnum, makedev(8, 16));
    assert_eq!(d.set_devnum(b"".to_vec(), b"16".to_vec()), Err(EINVAL));
    assert_eq!(d.set_devnum(b"8".to_vec(), b"x".to_vec()), Err(EINVAL));
    d.set_seqnum(1234);
    assert_eq!(d.get_seqnum(), Some(1234));
    assert_eq!(d.set_seqnum_from_string(&b"18446744073709551615".to_vec()), Ok(()));
    assert_eq!(d.get_seqnum(), Some(u64::MAX));
    assert_eq!(d.set_seqnum_from_string(&b"-1".to_vec()), Err(EINVAL));
    d.set_action(DeviceAction::Change);
    assert_eq!(d.set_action_from_string(&b"unbind".to_vec()), Ok(()));
    assert_eq!(d.action, Some(DeviceAction::Unbind));
    assert_eq!(d.set_action_from_string(&b"explode".to_vec()), Err(EINVAL));
    assert_eq!(
        d.get_properties_nulstr().0,
        b"DEVNAME=/dev/sdb\0DEVTYPE=disk\0SUBSYSTEM=block\0MAJOR=8\0MINOR=16\0SEQNUM=18446744073709551615\0ACTION=unbind\0"
            .to_vec()
    );
    assert_eq!(DeviceAction::from_name(&b"add".to_vec()), Some(DeviceAction::Add));
    assert_eq!(DeviceAction::Offline.name(), b"offline".to_vec());
}

#[test]
fn device_is_read_from_the_text_of_an_event() {
    let text = b"ACTION=add\0DEVPATH=/devices/pci0000:00/block/sda\0SUBSYSTEM=block\0MAJOR=8\0MINOR=0\0DEVNAME=sda\0DEVTYPE=disk\0SEQNUM=4711\0TAGS=:systemd:\0ID_FOO=bar=baz\0".to_vec();
    let d = Device::from_nulstr(&text).unwrap();
    assert_eq!(d.action, Some(DeviceAction::Add));
    assert_eq!(d.syspath, b"/sys/devices/pci0000:00/block/sda".to_vec());
    assert_eq!(d.devpath, b"/devices/pci0000:00/block/sda".to_vec());
    assert_eq!(d.subsystem, b"block".to_vec());
    assert_eq!(d.devnum, makedev(8, 0));
    assert_eq!(d.devname, b"/dev/sda".to_vec());
    assert_eq!(d.devtype, b"disk".to_vec());
    assert_eq!(d.get_seqnum(), Some(4711));
    let props: Vec<(String, String)> = d
        .properties
        .iter()
        .map(|p| {
            (String::from_utf8(p.key.clone()).unwrap(), String::from_utf8(p.value.clone()).unwrap())
        })
        .collect();
    assert!(props.contains(&("ID_FOO".to_string(), "bar".to_string())));
    assert!(!props.iter().any(|(k, _)| k == "TAGS"));
    assert!(!d.properties_buf_outdated);
    assert_eq!(d.properties_nulstr_len, d.properties_nulstr.len());

    // reading ends at the first line without `=`
    let d = Device::from_nulstr(&b"DEVTYPE=disk\0garbage\0SEQNUM=1\0".to_vec()).unwrap();
    assert_eq!(d.devtype, b"disk".to_vec());
    assert_eq!(d.get_seqnum(), None);
    assert_eq!(d.devnum, 0);
    assert!(Device::from_nulstr(&vec![]).is_ok());
    assert_eq!(Device::from_nulstr(&b"ACTION=fly\0".to_vec()).err(), Some(EINVAL));
    assert_eq!(Device::from_nulstr(&b"DEVPATH=devices\0".to_vec()).err(), Some(EINVAL));
    assert_eq!(Device::from_nulstr(&b"MAJOR=8\0".to_vec()).err(), Some(EINVAL));
    assert_eq!(Device::from_nulstr(&b"=x\0".to_vec()).err(), Some(EINVAL));
    assert_eq!(Device::from_nulstr(&b"SEQNUM=abc".to_vec()).err(), Some(EINVAL));
}

#[test]
fn worker_answers_and_control_commands_are_read() {
    assert_eq!(parse_worker_ack(b"killed 3"), Some(WorkerAck::Killed { id: 3 }));
    assert_eq!(parse_worker_ack(b"finished 12"), Some(WorkerAck::Finished { id: 12 }));
    assert_eq!(parse_worker_ack(b"finished"), None);
    assert_eq!(parse_worker_ack(b"finished 1 2"), None);
    assert_eq!(parse_worker_ack(b"finished x"), None);
    assert_eq!(parse_worker_ack(b"done 1"), None);
    assert_eq!(parse_worker_ack(b""), None);
    assert_eq!(
        parse_control_cmd(b"test sda"),
        Some(ControlCmd::Test { name_start: 5, name_end: 8 })
    );
    assert_eq!(
        parse_control_cmd(b"test sda now"),
        Some(ControlCmd::Test { name_start: 5, name_end: 8 })
    );
    assert_eq!(
        parse_control_cmd(b"test "),
        Some(ControlCmd::Test { name_start: 5, name_end: 5 })
    );
    assert_eq!(parse_control_cmd(b"kill all"), Some(ControlCmd::Kill));
    assert_eq!(parse_control_cmd(b"kill"), None);
    assert_eq!(parse_control_cmd(b"stop sda"), None);
}

#[test]
fn jobs_go_to_idle_workers_first_then_to_new_ones() {
    let mut wm = WorkerManager::new(2);
    let (id, ops) = wm.job_dispatch(100).unwrap();
    assert_eq!(id, 0);
    assert_eq!(
        ops,
        vec![
            WorkerOp::Spawn { id: 0 },
            WorkerOp::Send { id: 0, message: WorkerMessage::Job { seqnum: 100 } }
        ]
    );
    assert!(wm.bind(0, 100));
    let (id, _) = wm.job_dispatch(101).unwrap();
    assert_eq!(id, 1);
    assert!(wm.bind(1, 101));
    assert_eq!(wm.job_dispatch(102), None);
    assert_eq!(
        wm.worker_response_dispose(b"finished 0"),
        vec![WorkerOp::JobFree { seqnum: 100 }]
    );
    assert_eq!(
        wm.get_workers()[0],
        Worker { id: 0, state: WorkerState::Idle, device_job: None }
    );
    let (id, ops) = wm.job_dispatch(102).unwrap();
    assert_eq!(id, 0);
    assert_eq!(ops, vec![WorkerOp::Send { id: 0, message: WorkerMessage::Job { seqnum: 102 } }]);
    assert!(wm.worker_response_dispose(b"finished 9").is_empty());
    assert!(wm.worker_response_dispose(b"nonsense").is_empty());
    assert!(!wm.bind(9, 1));
}

#[test]
fn killed_workers_leave_the_pool_and_free_their_identifier() {
    let mut wm = WorkerManager::new(3);
    assert_eq!(wm.create_new_worker(), Some(0));
    assert_eq!(wm.create_new_worker(), Some(1));
    assert_eq!(wm.create_new_worker(), Some(2));
    assert_eq!(wm.create_new_worker(), None);
    assert_eq!(wm.get_kill_workers_timer(), None);
    wm.set_kill_workers_timer();
    let timer = wm.get_kill_workers_timer().unwrap();
    assert_eq!(timer, sysmaster::worker_manager::WorkerManagerKillWorkers::new(1));
    assert_eq!(timer.time_relative(), Some(1_000_000));
    assert!(!wm.kill_workers_timer_runs());
    wm.start_kill_workers_timer();
    assert!(wm.kill_workers_timer_runs());
    wm.stop_kill_workers_timer();
    assert!(!wm.kill_workers_timer_runs());
    assert_eq!(wm.get_kill_workers_timer(), Some(timer));
    assert_eq!(
        wm.manager_kill_workers(),
        vec![
            WorkerOp::Send { id: 0, message: WorkerMessage::Kill },
            WorkerOp::Send { id: 1, message: WorkerMessage::Kill },
            WorkerOp::Send { id: 2, message: WorkerMessage::Kill },
        ]
    );
    assert!(wm.get_workers().iter().all(|w| w.state == WorkerState::Killing));
    assert_eq!(wm.job_dispatch(1), None);
    assert_eq!(wm.worker_response_dispose(b"killed 1"), vec![WorkerOp::Join { id: 1 }]);
    let ids: Vec<u32> = wm.get_workers().iter().map(|w| w.id).collect();
    assert_eq!(ids, vec![0, 2]);
    assert_eq!(wm.create_new_worker(), Some(1));
    assert!(wm.set_worker_state(2, WorkerState::Idle));
    assert!(!wm.set_worker_state(7, WorkerState::Idle));
    assert_eq!(WorkerState::Killing.name(), "Killing");
    assert_eq!(WorkerState::Killed.name(), "Killed");
}

#[test]
fn uevent_file_fills_the_device() {
    let mut d = Device::new();
    assert_eq!(
        d.read_uevent(&b"MAJOR=8\nMINOR=1\nDEVNAME=sda1\nDEVTYPE=partition\nIFINDEX=-3\nDEVMODE=+432\nDISKSEQ=7\nPARTN=1\n".to_vec()),
        Ok(())
    );
    assert!(d.uevent_loaded);
    assert_eq!(d.devnum, makedev(8, 1));
    assert_eq!(d.get_devnum(), Ok(makedev(8, 1)));
    assert_eq!(d.devname, b"/dev/sda1".to_vec());
    assert_eq!(d.devtype, b"partition".to_vec());
    assert_eq!(d.ifindex, -3);
    assert_eq!(d.devmode, 432);
    assert_eq!(d.diskseq, 7);
    // a device whose file has been read is left as it is
    assert_eq!(d.read_uevent(&b"MAJOR=9\nMINOR=9\n".to_vec()), Ok(()));
    assert_eq!(d.devnum, makedev(8, 1));

    let mut d = Device::new();
    assert_eq!(d.read_uevent(&b"DEVTYPE=disk\n".to_vec()), Err(EINVAL));
    assert!(!d.uevent_loaded);
    assert_eq!(d.devtype, b"disk".to_vec());
    assert_eq!(d.get_devnum(), Err(2));
    let mut d = Device::new();
    assert_eq!(d.read_uevent(&b"IFINDEX=x\nMAJOR=1\nMINOR=1\n".to_vec()), Err(EINVAL));
    assert_eq!(d.devnum, 0);
    assert_eq!(d.properties.len(), 1);
}

#[test]
fn numbers_of_a_device_are_read_with_their_signs() {
    let mut d = Device::new();
    assert_eq!(d.set_ifindex(b"-2147483648".to_vec()), Ok(()));
    assert_eq!(d.ifindex, i32::MIN);
    assert_eq!(d.set_ifindex(b"2147483647".to_vec()), Ok(()));
    assert_eq!(d.ifindex, i32::MAX);
    assert_eq!(d.set_ifindex(b"2147483648".to_vec()), Err(EINVAL));
    assert_eq!(d.set_ifindex(b"-2147483649".to_vec()), Err(EINVAL));
    assert_eq!(d.set_ifindex(b"-".to_vec()), Err(EINVAL));
    assert_eq!(d.ifindex, i32::MAX);
    assert_eq!(d.set_devmode(b"4294967295".to_vec()), Ok(()));
    assert_eq!(d.devmode, u32::MAX);
    assert_eq!(d.set_devmode(b"4294967296".to_vec()), Err(EINVAL));
    assert_eq!(d.set_diskseq(b"+18446744073709551615".to_vec()), Ok(()));
    assert_eq!(d.diskseq, u64::MAX);
    assert_eq!(d.set_diskseq(b"1e3".to_vec()), Err(EINVAL));
}

#[test]
fn subsystem_is_worked_out_from_link_or_path() {
    let at = |path: &[u8]| {
        let mut d = Device::new();
        d.set_syspath(path.to_vec()).unwrap();
        d
    };
    let mut d = at(b"/sys/devices/pci0000:00/sda");
    assert_eq!(d.get_subsystem(b"block".to_vec()), Ok(b"block".to_vec()));
    assert!(d.subsystem_set);
    // once known, it is not worked out again
    assert_eq!(d.get_subsystem(b"other".to_vec()), Ok(b"block".to_vec()));
    let mut d = at(b"/sys/module/loop");
    assert_eq!(d.get_subsystem(vec![]), Ok(b"module".to_vec()));
    let mut d = at(b"/sys/bus/pci/drivers/ahci");
    assert_eq!(d.get_subsystem(vec![]), Ok(b"pci".to_vec()));
    assert_eq!(d.driver_subsystem, b"pci".to_vec());
    let mut d = at(b"/sys/class/net");
    assert_eq!(d.get_subsystem(vec![]), Ok(b"subsystem".to_vec()));
    let mut d = at(b"/sys/bus/usb");
    assert_eq!(d.get_subsystem(vec![]), Ok(b"subsystem".to_vec()));
    let mut d = at(b"/sys/devices/virtual/mem");
    assert_eq!(d.get_subsystem(vec![]), Err(2));
    assert!(d.subsystem_set);
    let mut d = at(b"/sys/bus/pci/drivers_probe");
    assert_eq!(d.get_subsystem(vec![]), Err(EINVAL));
    let mut d = at(b"/sys/drivers/x");
    assert_eq!(d.set_drivers_subsystem(), Err(EINVAL));
    let mut d = at(b"/sys/a/b/drivers");
    assert_eq!(d.set_drivers_subsystem(), Ok(()));
    assert_eq!(d.subsystem, b"b".to_vec());
}

#[test]
fn syspath_is_held_against_the_file_system() {
    let dir = sysmaster::device::PathFacts { is_dir: true, has_uevent: true };
    let bare = sysmaster::device::PathFacts { is_dir: true, has_uevent: false };
    let file = sysmaster::device::PathFacts { is_dir: false, has_uevent: false };
    let mut d = Device::new();
    assert_eq!(d.set_syspath_checked(b"/sys/devices/virtual/tty/tty1".to_vec(), dir), Ok(()));
    assert_eq!(d.get_syspath(), Some(&b"/sys/devices/virtual/tty/tty1".to_vec()));
    assert_eq!(d.get_devpath(), Some(&b"/devices/virtual/tty/tty1".to_vec()));
    let mut d = Device::new();
    assert_eq!(d.set_syspath_checked(b"/sys/devices/x".to_vec(), bare), Err(ENOENT));
    assert_eq!(d.set_syspath_checked(b"/sys/devices/x".to_vec(), file), Err(20));
    assert_eq!(d.set_syspath_checked(b"/sys/devices".to_vec(), bare), Err(ENOENT));
    assert_eq!(d.set_syspath_checked(b"/sys/devicesx".to_vec(), file), Err(ENODEV));
    assert_eq!(d.set_syspath_checked(b"/sys/class/net".to_vec(), file), Err(ENODEV));
    assert_eq!(d.set_syspath_checked(b"/sys".to_vec(), dir), Err(ENODEV));
    assert_eq!(d.set_syspath_checked(b"/system/x".to_vec(), dir), Err(EINVAL));
    assert_eq!(d.set_syspath_checked(b"/tmp".to_vec(), dir), Err(EINVAL));
    assert_eq!(d.get_syspath(), None);
    assert_eq!(d.set_syspath_checked(b"/sys/class/net".to_vec(), bare), Ok(()));
    assert_eq!(d.get_syspath(), Some(&b"/sys/class/net".to_vec()));
}

#[test]
fn parent_of_a_syspath_stops_at_sys() {
    assert_eq!(
        sysmaster::device::parent_of_syspath(&b"/sys/devices/pci0/eth0".to_vec()),
        Ok(b"/sys/devices/pci0".to_vec())
    );
    assert_eq!(
        sysmaster::device::parent_of_syspath(&b"/sys/devices/pci0".to_vec()),
        Ok(b"/sys/devices".to_vec())
    );
    assert_eq!(sysmaster::device::parent_of_syspath(&b"/sys/devices".to_vec()), Err(ENODEV));
    assert_eq!(sysmaster::device::parent_of_syspath(&b"/sys".to_vec()), Ok(b"/".to_vec()));
    assert_eq!(sysmaster::device::parent_of_syspath(&b"/".to_vec()), Err(ENODEV));
    assert_eq!(sysmaster::device::parent_of_syspath(&b"".to_vec()), Err(ENODEV));
    assert_eq!(sysmaster::device::parent_of_syspath(&b"sys".to_vec()), Ok(b"".to_vec()));
}

#[test]
fn paths_are_told_apart_by_their_beginning() {
    assert!(sysmaster::device::names_node(&b"/dev/sda".to_vec()));
    assert!(sysmaster::device::names_node(&b"/dev".to_vec()));
    assert!(sysmaster::device::names_node(&b"/device".to_vec()));
    assert!(!sysmaster::device::names_node(&b"/sys/dev".to_vec()));
    assert!(!sysmaster::device::names_node(&b"/de".to_vec()));
    assert!(sysmaster::device::syspath_admitted(&b"/sys/class".to_vec(), true));
    assert!(!sysmaster::device::syspath_admitted(&b"/sys".to_vec(), true));
    assert!(!sysmaster::device::syspath_admitted(&b"/tmp/x".to_vec(), true));
    assert!(sysmaster::device::syspath_admitted(&b"/tmp/x".to_vec(), false));
}

fn disk(with_number: bool) -> Device {
    let mut d = Device::new();
    d.set_syspath(b"/sys/devices/pci0/block/sda".to_vec()).unwrap();
    if with_number {
        d.set_devnum(b"8".to_vec(), b"0".to_vec()).unwrap();
    }
    d
}

#[test]
fn node_is_held_against_number_and_subsystem() {
    let devnum = makedev(8, 0);
    assert_eq!(disk(false).check_node(S_IFBLK, devnum, b"block".to_vec()), Err(ENOENT));
    assert_eq!(disk(true).check_node(S_IFBLK, makedev(8, 1), b"block".to_vec()), Err(EINVAL));
    assert_eq!(disk(true).check_node(S_IFCHR, devnum, b"block".to_vec()), Err(EINVAL));
    assert_eq!(disk(true).check_node(S_IFBLK, devnum, b"tty".to_vec()), Err(EINVAL));
    assert_eq!(disk(true).check_node(S_IFCHR, devnum, b"tty".to_vec()), Ok(()));
    assert_eq!(disk(true).check_node(S_IFCHR, devnum, Vec::new()), Err(ENOENT));
    let mut d = disk(true);
    assert_eq!(d.check_node(S_IFBLK, devnum, b"block".to_vec()), Ok(()));
    assert_eq!(d.get_subsystem(Vec::new()), Ok(b"block".to_vec()));
}

#[test]
fn worker_answers_are_read_back() {
    let (text, stop) = sysmaster::worker_manager::worker_answer(7, WorkerMessage::Job { seqnum: 3 });
    assert_eq!(text, b"finished 7".to_vec());
    assert!(!stop);
    assert_eq!(parse_worker_ack(&text), Some(WorkerAck::Finished { id: 7 }));
    let (text, stop) = sysmaster::worker_manager::worker_answer(4294967295, WorkerMessage::Kill);
    assert_eq!(text, b"killed 4294967295".to_vec());
    assert!(stop);
    assert_eq!(parse_worker_ack(&text), Some(WorkerAck::Killed { id: 4294967295 }));
    let (text, _) = sysmaster::worker_manager::worker_answer(0, WorkerMessage::Kill);
    assert_eq!(text, b"killed 0".to_vec());
}

#[test]
fn worker_identifier_may_carry_a_plus_sign() {
    assert_eq!(parse_worker_ack(b"finished +7"), Some(WorkerAck::Finished { id: 7 }));
    assert_eq!(parse_worker_ack(b"killed +0"), Some(WorkerAck::Killed { id: 0 }));
    assert_eq!(parse_worker_ack(b"killed +"), None);
    assert_eq!(parse_worker_ack(b"killed ++1"), None);
    assert_eq!(parse_worker_ack(b"killed -1"), None);
    assert_eq!(parse_worker_ack(b"killed 4294967296"), None);
    assert_eq!(parse_worker_ack(b"killed 004294967295"), Some(WorkerAck::Killed { id: 4294967295 }));
}

#[test]
fn search_for_the_parent_is_settled_by_success_or_absence() {
    assert_eq!(sysmaster::device::parent_search_answer(Ok(())), (true, Ok(())));
    assert_eq!(sysmaster::device::parent_search_answer(Err(ENODEV)), (true, Err(ENOENT)));
    assert_eq!(sysmaster::device::parent_search_answer(Err(EINVAL)), (false, Err(EINVAL)));
    assert_eq!(sysmaster::device::parent_search_answer(Err(13)), (false, Err(13)));
}

#[test]
fn device_numbers_are_put_together_as_the_system_does() {
    for (major, minor) in [
        (0u64, 0u64),
        (8, 0),
        (8, 17),
        (259, 1048575),
        (0xfff, 0xff),
        (0x1000, 0x100),
        (0xffff_ffff, 0xffff_ffff),
        (u64::MAX, u64::MAX),
        (0x1234_5678_9abc_def0, 0x0fed_cba9_8765_4321),
    ] {
        let dev = sysmaster::devnum_util::makedev(major, minor);
        assert_eq!(dev, nix::sys::stat::makedev(major, minor));
        assert_eq!(sysmaster::devnum_util::major(dev), nix::sys::stat::major(dev));
        assert_eq!(sysmaster::devnum_util::minor(dev), nix::sys::stat::minor(dev));
    }
    for dev in [0u64, 1, 0x801, 0xffff_ffff_ffff_ffff, 0x1234_5678_9abc_def0] {
        assert_eq!(sysmaster::devnum_util::major(dev), nix::sys::stat::major(dev));
        assert_eq!(sysmaster::devnum_util::minor(dev), nix::sys::stat::minor(dev));
    }
    assert_eq!(sysmaster::devnum_util::makedev(8, 1), 0x801);
    assert_eq!(sysmaster::devnum_util::major(0x801), 8);
    assert_eq!(sysmaster::devnum_util::minor(0x801), 1);
}
