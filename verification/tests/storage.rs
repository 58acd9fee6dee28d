use rm2::config::{Error, Manager, ReadStep, WriteStep};
use rm2::daemon::{Daemon, DaemonProcess, Launch, StreamMode};
use rm2::formats::{
    get_current_default_network_format, get_default_config_format, MessagePack, Toml,
};
use rm2::paths::{get_config_dir, get_procs_config_path, parent_dir};
use rm2::{BytesFormat, Process, ProcessConfig, ProcessOptions, Status};
use std::io::ErrorKind;

struct Plain;

impl BytesFormat for Plain {
    type SerError = &'static str;
    type DeError = &'static str;
}

type Store = Manager<(), Plain, u32>;

fn config(path: &str) -> ProcessConfig {
    ProcessConfig {
        path: path.to_string(),
        args: vec!["-v".to_string(), "x y".to_string()],
        groups: vec![],
        options: ProcessOptions { save_logs: false, circuit_breaker: None },
    }
}

#[test]
fn first_read_loads_and_later_ones_use_the_copy() {
    let mut store = Store::new((), Plain);
    assert!(matches!(store.read(), ReadStep::Seek(0)));
    assert!(matches!(Store::sought(Ok(())), ReadStep::ReadToEnd));
    match Store::loaded(Ok(vec![1, 2])) {
        ReadStep::Decode(bytes) => assert_eq!(bytes, vec![1, 2]),
        _ => panic!("the file was read"),
    }
    assert!(store.decoded(Ok(12)).is_ok());
    assert!(matches!(store.read(), ReadStep::Cached));
    assert_eq!(*store.value(), 12);
}

#[test]
fn read_errors() {
    let mut store = Store::new((), Plain);
    match Store::sought(Err(ErrorKind::Other.into())) {
        ReadStep::Failed(Error::IO(e)) => assert_eq!(e.kind(), ErrorKind::Other),
        _ => panic!("the seek failed"),
    }
    match Store::loaded(Err(ErrorKind::PermissionDenied.into())) {
        ReadStep::Failed(Error::IO(e)) => assert_eq!(e.kind(), ErrorKind::PermissionDenied),
        _ => panic!("the read failed"),
    }
    assert!(matches!(store.decoded(Err("garbled")), Err(Error::De("garbled"))));
    assert!(matches!(store.read(), ReadStep::Seek(0)));
}

#[test]
fn write_runs_through_and_drops_the_copy() {
    let mut store = Store::new((), Plain);
    store.decoded(Ok(1)).ok();
    let step = Store::write(Ok(vec![7, 8, 9]));
    assert!(matches!(&step, WriteStep::SetLen { len: 3, bytes } if *bytes == vec![7, 8, 9]));
    let step = store.written(step, Ok(()));
    assert!(matches!(&step, WriteStep::Seek { offset: 0, bytes } if *bytes == vec![7, 8, 9]));
    let step = store.written(step, Ok(()));
    assert!(matches!(&step, WriteStep::WriteAll { bytes } if *bytes == vec![7, 8, 9]));
    assert_eq!(store.buffer, Some(1));
    let step = store.written(step, Ok(()));
    assert!(matches!(step, WriteStep::Done(Ok(()))));
    assert_eq!(store.buffer, None);
    assert!(matches!(store.read(), ReadStep::Seek(0)));
}

#[test]
fn write_leaves_exactly_the_encoding() {
    for old in [&b""[..], &b"ab"[..], &b"a much longer file"[..]] {
        let mut file = old.to_vec();
        let mut cursor = 5;
        let mut store = Store::new((), Plain);
        let mut step = Store::write(Ok(b"new".to_vec()));
        for _ in 0..3 {
            match &step {
                WriteStep::SetLen { len, .. } => file.resize(*len as usize, 0),
                WriteStep::Seek { offset, .. } => cursor = *offset as usize,
                WriteStep::WriteAll { bytes } => {
                    file[cursor..cursor + bytes.len()].copy_from_slice(bytes)
                }
                WriteStep::Done(_) => panic!("three steps write a value"),
            }
            step = store.written(step, Ok(()));
        }
        assert!(matches!(step, WriteStep::Done(Ok(()))));
        assert_eq!(file, b"new".to_vec());
    }
}

#[test]
fn failed_write_keeps_the_copy() {
    let mut store = Store::new((), Plain);
    store.decoded(Ok(1)).ok();
    assert!(matches!(
        Store::write(Err("unencodable")),
        WriteStep::Done(Err(Error::Ser("unencodable")))
    ));
    let step = store.written(Store::write(Ok(vec![7])), Ok(()));
    match store.written(step, Err(ErrorKind::Other.into())) {
        WriteStep::Done(Err(Error::IO(e))) => assert_eq!(e.kind(), ErrorKind::Other),
        _ => panic!("the seek failed"),
    }
    assert_eq!(store.buffer, Some(1));
    assert!(matches!(store.read(), ReadStep::Cached));
}

#[test]
fn config_error_converts() {
    let error: Error<Plain> = std::io::Error::from(ErrorKind::TimedOut).into();
    match error {
        Error::IO(e) => assert_eq!(e.kind(), ErrorKind::TimedOut),
        _ => panic!("it was an I/O error"),
    }
}

#[test]
fn default_formats() {
    assert_eq!(get_current_default_network_format(), MessagePack);
    assert_eq!(get_default_config_format(), Toml);
}

#[test]
fn toml_document_is_utf8() {
    assert_eq!(Toml::text("id = 1 # \u{e9}".as_bytes()), Ok("id = 1 # \u{e9}"));
    assert_eq!(Toml::text(b""), Ok(""));
    assert!(Toml::text(&[0x69, 0xff]).is_err());
    assert!(Toml::text(&[0xed, 0xa0, 0x80]).is_err());
}

#[test]
fn parent_directories() {
    let parent = |path: &str| parent_dir(&path.to_string());
    assert_eq!(parent("/usr/bin/app"), "/usr/bin");
    assert_eq!(parent("/app"), "/");
    assert_eq!(parent("bin/app"), "bin");
    assert_eq!(parent("app"), "");
    assert_eq!(parent("a//b/c"), "a//b");
    assert_eq!(parent("a/.."), "a");
    assert_eq!(parent(".."), "");
    assert_eq!(parent("."), "");
    assert_eq!(parent(""), "");
    assert_eq!(parent("/"), "/");
    assert_eq!(parent("./run"), ".");
    assert_eq!(parent("../run"), "..");
    assert_eq!(parent("/opt//run"), "/opt");
    assert_eq!(parent("/opt/app./run"), "/opt/app.");
    assert_eq!(parent("a//b"), "a");
    assert_eq!(parent("a/./b"), "a");
    assert_eq!(parent("/a/b/"), "/a");
    assert_eq!(parent("/opt/app/run/"), "/opt/app");
    assert_eq!(parent("/."), "/.");
    assert_eq!(parent("/./a"), "/");
    assert_eq!(parent("./"), "");
    assert_eq!(parent("a:b/c"), "a:b");
}

fn trimmed(path: &str, start: usize) -> &str {
    let mut path = path;
    while path.len() > start && (path.ends_with('/') || path.ends_with("/.")) {
        path = &path[..path.len() - 1];
    }
    path
}

fn expected_parent(path: &str) -> &str {
    let start: usize = if path.starts_with('/') { 1 } else { 0 };
    let body = trimmed(path, start);
    if body.len() <= start {
        return path;
    }
    let end = body.rfind('/').map_or(0, |slash| slash + 1);
    trimmed(&body[..end], start)
}

fn short_paths(alphabet: &[char], len: usize) -> Vec<String> {
    let mut paths = vec![String::new()];
    let mut done = 0;
    while paths[done].len() < len {
        for c in alphabet {
            let longer = format!("{}{}", paths[done], c);
            paths.push(longer);
        }
        done += 1;
    }
    paths
}

#[test]
fn parents_of_all_short_paths() {
    for path in short_paths(&['/', '.', 'a'], 8).iter().filter(|path| !path.starts_with("//")) {
        assert_eq!(parent_dir(path), expected_parent(path), "{}", path);
    }
}

#[test]
fn parents_follow_the_platform() {
    if std::path::MAIN_SEPARATOR == '/' {
        for path in short_paths(&['/', '.', 'a', ':', '\\', '?'], 6) {
            assert_eq!(parent_dir(&path), expected_parent(&path), "{}", path);
        }
        assert_eq!(parent_dir(&"//opt/app/run".to_string()), "//opt/app");
        assert_eq!(parent_dir(&"C:.".to_string()), "");
    } else {
        assert_eq!(parent_dir(&"//opt/app/run".to_string()), "//opt/app/");
        assert_eq!(parent_dir(&"C:.".to_string()), "C:.");
    }
}

#[test]
fn config_directory_ignores_the_home() {
    for home in ["/home/me", "/root/", "", "relative", "/home/a:b", "/home/a\\b"] {
        let dir = get_config_dir(&home.to_string());
        assert_eq!(dir, "/.rm2/");
        assert_eq!(get_procs_config_path(&dir), "/.rm2/processes.toml");
    }
}

#[test]
fn config_file_is_appended() {
    assert_eq!(get_procs_config_path(&"".to_string()), "processes.toml");
    assert_eq!(get_procs_config_path(&"a/".to_string()), "a/processes.toml");
    assert_eq!(get_procs_config_path(&"C:/.rm2/".to_string()), "C:/.rm2/processes.toml");
    let joined = get_procs_config_path(&"a".to_string());
    assert!(joined == "a/processes.toml" || joined == "a\\processes.toml");
}

#[test]
fn launch_of_a_process() {
    assert_eq!(
        Daemon::<()>::run_process(&config("/opt/tool/run")),
        Launch {
            program: "/opt/tool/run".to_string(),
            current_dir: "/opt/tool".to_string(),
            args: vec!["-v".to_string(), "x y".to_string()],
            stdin: StreamMode::Null,
            stdout: StreamMode::Piped,
            stderr: StreamMode::Piped,
        }
    );
}

#[test]
fn launches_follow_the_configurations() {
    let configs: Vec<Process> = [(7, "/a/x"), (2, "./y"), (7, "/a/x")]
        .iter()
        .map(|(id, path)| Process { id: *id, config: config(path) })
        .collect();
    let launches = Daemon::<()>::launches(&configs);
    assert_eq!(launches.len(), 3);
    assert_eq!((launches[0].program.as_str(), launches[0].current_dir.as_str()), ("/a/x", "/a"));
    assert_eq!((launches[1].program.as_str(), launches[1].current_dir.as_str()), ("./y", "."));
    assert_eq!(launches[2], launches[0]);
    assert_eq!(launches[1], Daemon::<()>::run_process(&config("./y")));
    assert_eq!(Daemon::<()>::launches(&vec![]), vec![]);
}

#[test]
fn groups_and_options_do_not_change_the_launch() {
    for path in ["../tool/run", "//opt/tool/run", "C:tool\\run", "\\\\?\\C:\\run"] {
        let mut other = config(path);
        other.groups = vec!["web".to_string()];
        other.options.save_logs = true;
        assert_eq!(
            Daemon::<()>::run_process(&other),
            Daemon::<()>::run_process(&config(path))
        );
    }
}

#[test]
fn started_process() {
    let process = DaemonProcess::starting('r');
    assert_eq!(process.runtime, 'r');
    assert_eq!(process.state.status, Status::Starting);
    assert_eq!(process.state.circuit_breaker_state, None);
}

#[test]
fn last_process_of_an_id_is_kept() {
    let configs: Vec<Process> =
        [3, 4, 3].iter().map(|id| Process { id: *id, config: config("/a/b") }).collect();
    let daemon = Daemon::new(&configs, vec!['a', 'b', 'c']);
    assert_eq!(daemon.processes.len(), 2);
    assert_eq!(daemon.processes[&3], DaemonProcess::starting('c'));
    assert_eq!(daemon.processes[&4], DaemonProcess::starting('b'));
}

#[test]
fn daemon_without_processes() {
    assert!(Daemon::<()>::new(&vec![], vec![]).processes.is_empty());
}
