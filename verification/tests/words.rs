use sysmaster::job_entry::JobMode;
use sysmaster::manager::{Action, Manager, Mode, RebootMode, ReliLastFrame};
use sysmaster::reliability::Reliability;
use sysmaster::unit_base::KillMode;
use sysmaster::unit_sets::UnitType;
use sysmaster::unit_words::{
    command_words, job_mode_from_name, job_mode_to_name, kill_mode_from_name, kill_mode_to_name,
    WordRange,
};
use sysmaster::worker_manager::{ControlCmd, ControlManager, WorkerManagerKillWorkers};

#[test]
fn unit_type_is_told_by_the_suffix() {
    assert_eq!(UnitType::of_name("app.socket"), Some(UnitType::UnitSocket));
    assert_eq!(UnitType::of_name("app.service"), Some(UnitType::UnitService));
    assert_eq!(UnitType::of_name("basic.target"), Some(UnitType::UnitTarget));
    assert_eq!(UnitType::of_name("home.mount"), Some(UnitType::UnitMount));
    assert_eq!(UnitType::of_name("tick.timer"), Some(UnitType::UnitTimer));
    assert_eq!(UnitType::of_name("a.service.socket"), Some(UnitType::UnitSocket));
}

#[test]
fn unit_type_needs_a_stem_and_a_known_suffix() {
    assert_eq!(UnitType::of_name(".service"), None);
    assert_eq!(UnitType::of_name("service"), None);
    assert_eq!(UnitType::of_name(""), None);
    assert_eq!(UnitType::of_name("app.sockets"), None);
    assert_eq!(UnitType::of_name("app.socket "), None);
    assert_eq!(UnitType::of_name("app.device"), None);
}

#[test]
fn unit_type_suffix_is_the_dotted_word() {
    assert_eq!(UnitType::UnitService.suffix(), b".service".to_vec());
    assert_eq!(UnitType::UnitTarget.suffix(), b".target".to_vec());
    assert_eq!(UnitType::UnitSocket.suffix(), b".socket".to_vec());
    assert_eq!(UnitType::UnitMount.suffix(), b".mount".to_vec());
    assert_eq!(UnitType::UnitTimer.suffix(), b".timer".to_vec());
}

#[test]
fn kill_mode_names_are_read_and_written() {
    assert_eq!(kill_mode_from_name("control-group"), Some(KillMode::ControlGroup));
    assert_eq!(kill_mode_from_name("process"), Some(KillMode::Process));
    assert_eq!(kill_mode_from_name("mixed"), Some(KillMode::Mixed));
    assert_eq!(kill_mode_from_name("none"), Some(KillMode::Off));
    assert_eq!(kill_mode_from_name("None"), None);
    assert_eq!(kill_mode_from_name(""), None);
    assert_eq!(kill_mode_from_name("mixed "), None);
    assert_eq!(kill_mode_to_name(KillMode::ControlGroup), b"control-group".to_vec());
    assert_eq!(kill_mode_to_name(KillMode::Off), b"none".to_vec());
}

#[test]
fn job_mode_names_are_read_and_written() {
    let all = [
        (JobMode::JobFail, "fail"),
        (JobMode::JobReplace, "replace"),
        (JobMode::JobReplaceIrreversible, "replace-irreversible"),
        (JobMode::JobIsolate, "isolate"),
        (JobMode::JobFlush, "flush"),
        (JobMode::JobIgnoreDependencies, "ignore-dependencies"),
        (JobMode::JobIgnoreRequirements, "ignore-requirements"),
        (JobMode::JobTrigger, "trigger"),
    ];
    for (mode, name) in all {
        assert_eq!(job_mode_from_name(name), Some(mode));
        assert_eq!(job_mode_to_name(mode), name.as_bytes().to_vec());
    }
    assert_eq!(job_mode_from_name("replace-"), None);
    assert_eq!(job_mode_from_name("Fail"), None);
}

#[test]
fn command_line_is_split_at_blanks() {
    let line = "/bin/echo  hello\tworld ";
    let words = command_words(line);
    assert_eq!(
        words,
        vec![
            WordRange { start: 0, end: 9 },
            WordRange { start: 11, end: 16 },
            WordRange { start: 17, end: 22 },
        ]
    );
    assert_eq!(&line[words[0].start..words[0].end], "/bin/echo");
    assert_eq!(&line[words[2].start..words[2].end], "world");
}

#[test]
fn command_line_without_words_is_empty() {
    assert_eq!(command_words(""), Vec::<WordRange>::new());
    assert_eq!(command_words("  \t\n "), Vec::<WordRange>::new());
    assert_eq!(command_words("x"), vec![WordRange { start: 0, end: 1 }]);
    assert_eq!(command_words(" x"), vec![WordRange { start: 1, end: 2 }]);
}

#[test]
fn kill_timer_counts_in_microseconds() {
    let timer = WorkerManagerKillWorkers::new(3);
    assert_eq!(timer.time_relative(), Some(3_000_000));
    assert_eq!(timer.priority(), -55);
    assert_eq!(WorkerManagerKillWorkers::new(0).time_relative(), Some(0));
    assert_eq!(
        WorkerManagerKillWorkers::new(u64::MAX / 1_000_000).time_relative(),
        Some(u64::MAX / 1_000_000 * 1_000_000)
    );
    assert_eq!(WorkerManagerKillWorkers::new(u64::MAX / 1_000_000 + 1).time_relative(), None);
    assert_eq!(WorkerManagerKillWorkers::new(u64::MAX).time_relative(), None);
}

#[test]
fn control_manager_reads_commands() {
    let control = ControlManager::new();
    assert_eq!(control.priority(), -50);
    assert_eq!(control.cmd_process(b"kill now"), Some(ControlCmd::Kill));
    assert_eq!(control.cmd_process(b"test /dev/sda"), Some(ControlCmd::Test { name_start: 5, name_end: 13 }));
    assert_eq!(control.cmd_process(b"kill"), None);
    assert_eq!(control.cmd_process(b"halt now"), None);
    assert_eq!(control.cmd_process(b""), None);
}

#[test]
fn restore_switched_off_forgets_the_journal() {
    let manager = Manager::new(Mode::System, Action::Run);
    let mut reli = Reliability::new();
    reli.set_enable(true);
    reli.set_last_frame1(ReliLastFrame::Queue);
    reli.set_last_unit("a.service".to_string());
    assert_eq!(manager.set_restore(&mut reli, true), None);
    assert!(reli.enable());
    assert!(reli.last_frame().is_some());
    assert_eq!(reli.last_unit(), Some(&"a.service".to_string()));
    assert_eq!(manager.set_restore(&mut reli, false), Some(RebootMode::RbAutoboot));
    assert!(!reli.enable());
    assert!(reli.last_frame().is_none());
    assert!(reli.last_unit().is_none());
}

#[test]
fn debug_clear_restore_forgets_the_journal() {
    let manager = Manager::new(Mode::System, Action::Run);
    let mut reli = Reliability::new();
    reli.set_enable(true);
    reli.set_last_frame1(ReliLastFrame::CmdOp);
    manager.debug_clear_restore(&mut reli);
    assert!(!reli.enable());
    assert!(reli.last_frame().is_none());
    assert!(reli.last_unit().is_none());
}
