use mkswap::device::{DeviceAction, DeviceEvent, FileSystem};
use mkswap::error::{MkswapError, SetupError};
use mkswap::request::Options;
use mkswap::session::{mkswap, Action, Event};

const SWAP_SIGNATURE: &[u8] = "SWAPSPACE2".as_bytes();

const SWAP_VERSION: u32 = 1;
const SWAP_VERSION_OFFSET: usize = 1024;

const SWAP_UUID_LENGTH: usize = 16;
const SWAP_UUID_OFFSET: usize = 1036;

/// A machine with pages of 4096 bytes and one device.
struct Machine {
    contents: Option<Vec<u8>>,
    open_error: Option<&'static str>,
    allocate_error: Option<&'static str>,
    write_error: Option<&'static str>,
    file_system: FileSystem,
    flags: i32,
    mode: Option<u32>,
    owner: u32,
    euid: u32,
    block_device: bool,
    kernel_size: (i32, u64),
    size_line: &'static str,
    size_path: Option<String>,
    unreadable: Vec<u64>,
    reads: Vec<u64>,
    writes: usize,
}

fn machine(contents: Option<Vec<u8>>) -> Machine {
    Machine {
        contents,
        open_error: None,
        allocate_error: None,
        write_error: None,
        file_system: FileSystem::Other,
        flags: 0,
        mode: None,
        owner: 0,
        euid: 0,
        block_device: false,
        kernel_size: (0, 0),
        size_line: "",
        size_path: None,
        unreadable: Vec::new(),
        reads: Vec::new(),
        writes: 0,
    }
}

fn options(device: &str) -> Options {
    Options {
        util_name: "mkswap".to_string(),
        device: Some(device.to_string()),
        label: None,
        endianness: None,
        uuid: None,
        pagesize: None,
        filesize: None,
        offset: None,
        file: false,
        check: false,
        force: false,
        verbose: false,
    }
}

fn new_file(device: &str, size: u64) -> Options {
    Options {
        file: true,
        filesize: Some(size),
        ..options(device)
    }
}

impl Machine {
    fn prepare(&mut self, action: DeviceAction) -> DeviceEvent {
        match action {
            DeviceAction::Open { create } => {
                if let Some(reason) = self.open_error {
                    return DeviceEvent::Failed { reason: reason.to_string() };
                }
                if self.contents.is_none() {
                    if !create {
                        let reason = "No such file or directory (os error 2)".to_string();
                        return DeviceEvent::Failed { reason };
                    }
                    self.contents = Some(Vec::new());
                }
                DeviceEvent::Succeeded
            }
            DeviceAction::SetPermissions { mode } => {
                self.mode = Some(mode);
                DeviceEvent::Succeeded
            }
            DeviceAction::QueryFileSystem => DeviceEvent::FileSystem(self.file_system),
            DeviceAction::GetFlags => DeviceEvent::Flags(self.flags),
            DeviceAction::SetFlags { flags } => {
                self.flags = flags;
                DeviceEvent::Succeeded
            }
            DeviceAction::Allocate { length } => {
                if let Some(reason) = self.allocate_error {
                    return DeviceEvent::Failed { reason: reason.to_string() };
                }
                let contents = self.contents.as_mut().unwrap();
                if contents.len() < length as usize {
                    contents.resize(length as usize, 0);
                }
                DeviceEvent::Succeeded
            }
            DeviceAction::Done => panic!("nothing is left to do"),
        }
    }

    fn perform(&mut self, action: Action) -> Event {
        match action {
            Action::QueryPageSize => Event::PageSize { pagesize: 4096, page_size: 4096 },
            Action::Device(action) => Event::Device(self.prepare(action)),
            Action::QueryStatus => Event::Status {
                owner: self.owner,
                euid: self.euid,
                block_device: self.block_device,
                size: self.contents.as_ref().unwrap().len() as u64,
            },
            Action::QueryBlockSize => Event::BlockSize {
                status: self.kernel_size.0,
                size: self.kernel_size.1,
            },
            Action::ReadSizeFile { path } => {
                self.size_path = Some(path);
                Event::SizeFile { line: self.size_line.to_string() }
            }
            Action::ReadPage { position, length } => {
                self.reads.push(position);
                let end = position + length as u64;
                let readable = end <= self.contents.as_ref().unwrap().len() as u64
                    && !self.unreadable.contains(&position);
                Event::Page { readable }
            }
            Action::WriteArea(write) => {
                if let Some(reason) = self.write_error {
                    return Event::Failed { reason: reason.to_string() };
                }
                let contents = self.contents.as_mut().unwrap();
                let start = write.position as usize;
                if contents.len() < start + write.bytes.len() {
                    contents.resize(start + write.bytes.len(), 0);
                }
                contents[start..start + write.bytes.len()].copy_from_slice(&write.bytes);
                self.writes += 1;
                Event::Written
            }
            Action::Finish { .. } | Action::Fail(_) => panic!("the run is over"),
        }
    }

    /// Runs the program; gives the notes and how it ended.
    fn run(&mut self, options: Options) -> (Vec<String>, Result<String, SetupError>) {
        let mut notes = Vec::new();
        let (mut run, mut action) = match mkswap(options) {
            Ok(begun) => begun,
            Err(e) => return (notes, Err(e)),
        };
        loop {
            match action {
                Action::Finish { report } => return (notes, Ok(report)),
                Action::Fail(e) => return (notes, Err(e)),
                asked => {
                    let event = self.perform(asked);
                    assert!(run.accepts(&event));
                    let (next, step) = run.step(event);
                    if let Some(note) = step.note {
                        notes.push(note.message());
                    }
                    run = next;
                    action = step.action;
                }
            }
        }
    }

    fn succeeds(&mut self, options: Options) -> String {
        self.run(options).1.unwrap()
    }

    fn fails(&mut self, options: Options) -> String {
        let e = self.run(options).1.unwrap_err();
        assert_eq!(e.code(), 1);
        e.message()
    }

    fn bytes(&self) -> &[u8] {
        self.contents.as_ref().unwrap()
    }
}

fn ne_word(bytes: &[u8], at: usize) -> u32 {
    u32::from_ne_bytes(bytes[at..at + 4].try_into().unwrap())
}

#[test]
fn test_invalid_path() {
    let message = machine(None).fails(options("foobar/barfoo/bazoo"));
    assert!(message.contains("cannot open foobar/barfoo/bazoo: No such file or directory"));
}

#[test]
fn test_directory_err() {
    let mut m = machine(None);
    m.open_error = Some("Is a directory (os error 21)");
    let message = m.fails(options("foo"));
    assert!(message.contains("cannot open foo: Is a directory"));
}

#[test]
fn test_invalid_arg() {
    machine(None).fails(options("foo"));
}

#[test]
fn test_empty_args() {
    let empty = Options { device: None, ..options("") };
    let message = machine(None).fails(empty);
    assert!(message.contains("Nowhere to set up swap on?"));
}

#[test]
fn test_empty_file() {
    let message = machine(Some(Vec::new())).fails(options("empty"));
    assert!(message.contains("swap area needs to be at least"));
}

#[test]
fn test_min_size() {
    let message = machine(Some(vec![0; 4096])).fails(options("swap"));
    assert!(message.contains("swap area needs to be at least"));
}

#[test]
fn test_existing_file() {
    let mut m = machine(Some(vec![0; 40960]));
    let report = m.succeeds(options("swapfile"));
    assert!(report.contains("Setting up swapspace version 1"));
    let buf = m.bytes();

    let buf_version = u32::from_ne_bytes(buf[1024..1028].try_into().unwrap());
    assert_eq!(SWAP_VERSION, buf_version);
}

#[test]
fn test_swaplabel() {
    let mut m = machine(Some(vec![0; 40960]));
    let report = m.succeeds(Options {
        label: Some("SWAPLABEL".to_string()),
        ..options("swap_label_test")
    });
    assert!(report.contains("LABEL=SWAPLABEL"));
    assert!(report.contains("Setting up swapspace version 1"));

    let buf = m.bytes();
    assert_eq!(&buf[1052..1061], b"SWAPLABEL")
}

#[test]
fn test_custom_uuid() {
    let mut m = machine(Some(vec![0; 40960]));
    let report = m.succeeds(Options {
        label: Some("SWAP".to_string()),
        uuid: Some("4adbb628-19fa-4bef-9c60-8ce030381672".to_string()),
        ..options("swap_uuid_test")
    });
    assert!(report.contains("LABEL=SWAP, UUID=4adbb628-19fa-4bef-9c60-8ce030381672"));
    assert!(report.contains("Setting up swapspace version 1"));

    let buf = m.bytes();
    assert_eq!(
        &buf[SWAP_UUID_OFFSET..SWAP_UUID_OFFSET + SWAP_UUID_LENGTH],
        [74, 219, 182, 40, 25, 250, 75, 239, 156, 96, 140, 224, 48, 56, 22, 114]
    );
}

#[test]
fn test_long_label() {
    let mut m = machine(Some(vec![0; 40960]));
    let message = m.fails(Options {
        label: Some("OUTRAGEOUSLYLONGSWAPLABEL".to_string()),
        ..options("swap")
    });
    assert!(message.contains("Label is too long, maximum size is 16 characters"));
}

#[test]
fn test_invalid_uuid() {
    let mut m = machine(Some(vec![0; 40960]));
    let message = m.fails(Options {
        label: Some("SWAP".to_string()),
        uuid: Some("078d9a95+4c1e-4961-b8a5-3f9d27586645".to_string()),
        ..options("mkswap_invalid_uuid")
    });
    assert!(message.contains("Invalid UUID '078d9a95+4c1e-4961-b8a5-3f9d27586645':"));
}

#[test]
fn test_create_file() {
    let mut m = machine(None);
    let report = m.succeeds(new_file("mkswap_create_file", 40960));
    assert!(report.contains("Setting up swapspace version 1"));
    assert!(m.contents.is_some());

    let buf = &m.bytes()[..4096];
    let sig = &buf[4086..];
    assert_eq!(SWAP_SIGNATURE, sig);
}

#[test]
fn test_bad_page_size() {
    let mut m = machine(None);
    let message = m.fails(Options {
        pagesize: Some(4000),
        ..new_file("test_swapfile", 40960)
    });
    assert!(message.contains("Bad user-specified page size 4000"));
}

#[test]
fn test_too_small_page_size() {
    let mut m = machine(None);
    let message = m.fails(Options {
        pagesize: Some(512),
        ..new_file("test_swapfile", 40960)
    });
    assert!(message.contains("Bad user-specified page size 512"));
}

#[test]
fn test_endianness_big() {
    let mut m = machine(None);
    m.succeeds(Options {
        pagesize: Some(4096),
        endianness: Some("big".to_string()),
        ..new_file("swapfile_endianness_test", 40960)
    });
    assert!(m.contents.is_some());
    let buf = &m.bytes()[..4096];

    let be_version = 1u32.to_be();
    let version = u32::from_ne_bytes(
        buf[SWAP_VERSION_OFFSET..SWAP_VERSION_OFFSET + 4]
            .try_into()
            .unwrap(),
    );
    assert_eq!(be_version, version);

    const PAGES: u32 = 10;
    let be_last_page = (PAGES - 1).to_be();
    let last_page = u32::from_ne_bytes(buf[1028..1032].try_into().unwrap());
    assert_eq!(be_last_page, last_page);
}

#[test]
fn test_offset() {
    let mut m = machine(None);
    m.succeeds(Options {
        pagesize: Some(4096),
        offset: Some(4096),
        ..new_file("mkswap_test_offset", 45056)
    });

    let offset: usize = 4096;
    let buf = &m.bytes()[..8192];

    let sig = &buf[4086 + offset..];
    assert_eq!(SWAP_SIGNATURE, sig);

    let buf_version = u32::from_ne_bytes(buf[1024 + offset..1028 + offset].try_into().unwrap());
    assert_eq!(SWAP_VERSION, buf_version);
}

#[test]
fn reports_are_exact() {
    let uuid = "4ADBB628-19FA-4BEF-9C60-8CE030381672";
    let mut m = machine(Some(vec![0; 45000]));
    let report = m.succeeds(Options {
        uuid: Some(uuid.to_string()),
        ..options("swap")
    });
    assert_eq!(
        report,
        "Setting up swapspace version 1, size = 36 KiB (36864 bytes)\n\
         no label, UUID=4adbb628-19fa-4bef-9c60-8ce030381672"
    );
}

#[test]
fn boot_bits_and_the_rest_of_the_device_stay() {
    let mut m = machine(Some(vec![0xaa; 50000]));
    m.succeeds(Options { offset: Some(512), ..options("swap") });
    let buf = m.bytes();
    assert_eq!(buf.len(), 50000);
    assert!(buf[..512 + 1024].iter().all(|b| *b == 0xaa));
    assert!(buf[512 + 4096..].iter().all(|b| *b == 0xaa));
    assert_eq!(ne_word(buf, 512 + 1024), 1);
    assert_eq!(ne_word(buf, 512 + 1028), (50000 - 512) / 4096 - 1);
    assert_eq!(ne_word(buf, 512 + 1032), 0);
    assert!(buf[512 + 1052..512 + 4086].iter().all(|b| *b == 0));
    assert_eq!(&buf[512 + 4086..512 + 4096], SWAP_SIGNATURE);
    assert_eq!(m.writes, 1);
}

#[test]
fn endianness_is_the_one_that_is_asked_for() {
    for (name, word) in [("LITTLE", [1, 0, 0, 0]), ("Big", [0, 0, 0, 1])] {
        let mut m = machine(Some(vec![0; 40960]));
        m.succeeds(Options {
            endianness: Some(name.to_string()),
            ..options("swap")
        });
        assert_eq!(m.bytes()[1024..1028], word);
    }
    let mut m = machine(Some(vec![0; 40960]));
    m.succeeds(Options {
        endianness: Some("NaTiVe".to_string()),
        ..options("swap")
    });
    assert_eq!(ne_word(m.bytes(), 1024), 1);
}

#[test]
fn unknown_endianness_is_refused() {
    let message = machine(Some(vec![0; 40960])).fails(Options {
        endianness: Some("Middle".to_string()),
        ..options("swap")
    });
    assert_eq!(message, "invalid endianness Middle is not supported");
}

#[test]
fn bad_pages_are_listed() {
    let mut m = machine(Some(vec![0; 40960]));
    m.unreadable = vec![3 * 4096, 7 * 4096];
    let (notes, result) = m.run(Options {
        check: true,
        verbose: true,
        endianness: Some("big".to_string()),
        ..options("swap")
    });
    assert!(result.is_ok());
    assert_eq!(notes, ["bad page at index 3", "bad page at index 7"]);
    let positions: Vec<u64> = (1..10).map(|page| page * 4096).collect();
    assert_eq!(m.reads, positions);
    let buf = m.bytes();
    assert_eq!(buf[1032..1036], [0, 0, 0, 2]);
    assert_eq!(buf[1536..1544], [0, 0, 0, 3, 0, 0, 0, 7]);
    assert!(buf[1544..4086].iter().all(|b| *b == 0));
}

#[test]
fn quiet_scans_say_nothing() {
    let mut m = machine(Some(vec![0; 40960]));
    m.unreadable = vec![4096];
    let (notes, result) = m.run(Options { check: true, ..options("swap") });
    assert!(result.is_ok());
    assert!(notes.is_empty());
    assert_eq!(ne_word(m.bytes(), 1536), 1);
}

#[test]
fn pages_are_read_only_when_asked() {
    let mut m = machine(Some(vec![0; 40960]));
    m.unreadable = vec![4096];
    m.succeeds(Options { verbose: true, ..options("swap") });
    assert!(m.reads.is_empty());
    assert_eq!(ne_word(m.bytes(), 1032), 0);
    assert_eq!(ne_word(m.bytes(), 1536), 0);
}

#[test]
fn too_many_bad_pages_are_refused() {
    let size = 2048 * 2048;
    let mut m = machine(Some(vec![0; size]));
    m.unreadable = (1..2048).map(|page| page * 2048).collect();
    let (_, result) = m.run(Options {
        check: true,
        pagesize: Some(2048),
        ..options("swap")
    });
    let e = MkswapError::MaxBadPagesExceeded { max_badpages: 125 };
    assert_eq!(result, Err(SetupError::Area(e)));
    assert_eq!(e.message(), "Too many bad pages: 125");
    assert_eq!(m.writes, 0);
}

#[test]
fn random_uuids_are_drawn() {
    let mut drawn = Vec::new();
    for _ in 0..2 {
        let mut m = machine(Some(vec![0; 40960]));
        m.succeeds(options("swap"));
        let uuid = m.bytes()[1036..1052].to_vec();
        assert_eq!(uuid[6] >> 4, 4);
        assert_eq!(uuid[8] >> 6, 2);
        drawn.push(uuid);
    }
    assert_ne!(drawn[0], drawn[1]);
}

#[test]
fn printed_uuids_are_those_that_are_written() {
    let mut m = machine(Some(vec![0; 40960]));
    let report = m.succeeds(options("swap"));
    let text = report.rsplit("UUID=").next().unwrap();
    let again = machine(Some(vec![0; 40960]));
    let mut again = again;
    again.succeeds(Options {
        uuid: Some(text.to_string()),
        ..options("swap")
    });
    assert_eq!(m.bytes()[1036..1052], again.bytes()[1036..1052]);
}

#[test]
fn all_notations_of_a_uuid_are_read() {
    for text in [
        "4adbb62819fa4bef9c608ce030381672",
        "{4adbb628-19fa-4bef-9c60-8ce030381672}",
        "urn:uuid:4adbb628-19fa-4bef-9c60-8ce030381672",
        "URN:UUID:4ADBB628-19fa-4bef-9c60-8ce030381672",
    ] {
        let mut m = machine(Some(vec![0; 40960]));
        let report = m.succeeds(Options {
            uuid: Some(text.to_string()),
            ..options("swap")
        });
        assert!(report.ends_with("UUID=4adbb628-19fa-4bef-9c60-8ce030381672"));
    }
    for text in ["", "4adbb628", "4adbb628-19fa-4bef-9c608ce030381672-", "é"] {
        let message = machine(None).fails(Options {
            uuid: Some(text.to_string()),
            ..options("swap")
        });
        assert!(message.starts_with(&format!("Invalid UUID '{text}': ")));
    }
}

#[test]
fn new_files_are_prepared() {
    let mut m = machine(None);
    m.file_system = FileSystem::Btrfs;
    m.flags = 0x10;
    m.succeeds(new_file("swapfile", 40960));
    assert_eq!(m.mode, Some(0o600));
    assert_eq!(m.flags, 0x0080_0010);
    assert_eq!(m.bytes().len(), 40960);

    let mut m = machine(None);
    m.flags = 0x10;
    m.succeeds(new_file("swapfile", 40960));
    assert_eq!(m.flags, 0x10);
}

#[test]
fn existing_files_are_not_prepared() {
    let mut m = machine(Some(vec![0; 40960]));
    m.file_system = FileSystem::Btrfs;
    m.succeeds(options("swapfile"));
    assert_eq!(m.mode, None);
    assert_eq!(m.flags, 0);
}

#[test]
fn small_new_files_are_refused_before_they_are_made() {
    let mut m = machine(None);
    let message = m.fails(new_file("swapfile", 40959));
    assert_eq!(message, "error: swap area needs to be at least 40 KiB");
    assert!(m.contents.is_none());
}

#[test]
fn areas_behind_the_offset_have_to_be_large_enough() {
    let mut m = machine(None);
    let message = m.fails(Options {
        offset: Some(1),
        ..new_file("swapfile", 40960)
    });
    assert_eq!(message, "error: swap area needs to be at least 40 KiB");
    let mut m = machine(Some(vec![0; 40960]));
    let message = m.fails(Options {
        offset: Some(50000),
        ..options("swapfile")
    });
    assert_eq!(message, "error: swap area needs to be at least 40 KiB");
}

#[test]
fn allocation_may_fail() {
    let mut m = machine(None);
    m.allocate_error = Some("No space left on device");
    let message = m.fails(new_file("dir/swapfile", 40960));
    assert_eq!(
        message,
        "mkswap: dir/swapfile: Fallocate failed: No space left on device"
    );
}

#[test]
fn writing_may_fail() {
    let mut m = machine(Some(vec![0; 40960]));
    m.write_error = Some("Input/output error");
    assert_eq!(m.fails(options("swap")), "Input/output error");
}

#[test]
fn missing_devices_are_told() {
    let empty = Options { device: None, ..options("") };
    assert_eq!(
        machine(None).fails(empty),
        "error: Nowhere to set up swap on?\nTry 'mkswap --help' for more information."
    );
}

#[test]
fn insecure_owners_are_told_to_root() {
    let mut m = machine(Some(vec![0; 40960]));
    m.owner = 1000;
    let (notes, result) = m.run(options("/tmp/swap"));
    assert!(result.is_ok());
    assert_eq!(
        notes,
        ["mkswap: swap: insecure file owner 1000, fix with: chown 0:0 /tmp/swap"]
    );
    m.euid = 1000;
    let (notes, _) = m.run(options("/tmp/swap"));
    assert!(notes.is_empty());
}

#[test]
fn other_page_sizes_are_told() {
    let mut m = machine(Some(vec![0; 81920]));
    let (notes, result) = m.run(Options {
        pagesize: Some(8192),
        ..options("swap")
    });
    assert!(result.is_ok());
    assert_eq!(
        notes,
        ["Using user-specified page size 8192, instead of the system value 4096"]
    );
    assert_eq!(&m.bytes()[8182..8192], SWAP_SIGNATURE);
}

#[test]
fn block_devices_tell_their_size() {
    let mut m = machine(Some(vec![0; 81920]));
    m.block_device = true;
    m.kernel_size = (0, 61440);
    m.succeeds(options("/dev/sda1"));
    assert_eq!(ne_word(m.bytes(), 1028), 14);
    assert_eq!(m.size_path, None);

    m.kernel_size = (-1, 61440);
    m.size_line = "160\n";
    m.succeeds(options("/dev/sda1"));
    assert_eq!(ne_word(m.bytes(), 1028), 19);
    assert_eq!(m.size_path.as_deref(), Some("/sys/class/block/sda1/size"));

    m.size_line = "";
    assert_eq!(
        m.fails(options("/dev/sda1")),
        "empty size file for block device sda1"
    );
    m.size_line = "many\n";
    assert_eq!(
        m.fails(options("/dev/sda1")),
        "Invalid size value for block device sda1: invalid digit found in string"
    );
    m.size_line = "18446744073709551615\n";
    assert_eq!(
        m.fails(options("/dev/sda1")),
        "Unable to determine size of block device"
    );
}

#[test]
fn areas_may_be_too_large() {
    let mut m = machine(Some(vec![0; 4096]));
    m.block_device = true;
    m.kernel_size = (0, 4096 << 32);
    assert_eq!(
        m.fails(options("/dev/sda")),
        "error: swap area is too large: max size is 16383 GiB"
    );
    assert_eq!(m.writes, 0);
}

#[test]
fn forced_page_sizes_need_room_for_the_header() {
    for (pagesize, room) in [(0, false), (1545, false), (1546, true)] {
        let forced = Options {
            pagesize: Some(pagesize),
            force: true,
            ..options("swap")
        };
        let (run, _) = mkswap(forced).unwrap();
        let (run, _) = run.step(Event::PageSize { pagesize: 4096, page_size: 0 });
        let (run, _) = run.step(Event::Device(DeviceEvent::Succeeded));
        let status = Event::Status { owner: 0, euid: 0, block_device: false, size: 40960 };
        assert_eq!(run.accepts(&status), room);
    }
}

#[test]
fn forced_areas_may_be_larger_than_the_device() {
    for size in [0, 4096, 40959] {
        let mut m = machine(Some(vec![0xaa; size]));
        assert_eq!(
            m.fails(options("swap")),
            "error: swap area needs to be at least 40 KiB"
        );
        let report = m.succeeds(Options { force: true, ..options("swap") });
        assert!(report.starts_with("Setting up swapspace version 1, size = 36 KiB (36864 bytes)"));
        let buf = m.bytes();
        assert_eq!(buf.len(), size.max(4096));
        assert_eq!(ne_word(buf, 1024), 1);
        assert_eq!(ne_word(buf, 1028), 9);
        assert_eq!(&buf[4086..4096], SWAP_SIGNATURE);
        assert!(buf[4096..].iter().all(|b| *b == 0xaa));
    }
}

#[test]
fn forced_areas_may_begin_anywhere() {
    let mut m = machine(Some(vec![0; 40960]));
    m.succeeds(Options {
        force: true,
        offset: Some(50000),
        ..options("swap")
    });
    assert_eq!(m.bytes().len(), 54096);
    assert_eq!(ne_word(m.bytes(), 51028), 9);

    let mut m = machine(None);
    m.succeeds(Options {
        force: true,
        offset: Some(1),
        ..new_file("swapfile", 40960)
    });
    assert_eq!(m.bytes().len(), 40960);
    assert_eq!(ne_word(m.bytes(), 1029), 9);
}

#[test]
fn forced_new_files_are_not_made_too_small() {
    let mut m = machine(None);
    let message = m.fails(Options {
        force: true,
        ..new_file("swapfile", 40959)
    });
    assert_eq!(message, "error: swap area needs to be at least 40 KiB");
    assert!(m.contents.is_none());
}

#[test]
fn forced_areas_on_small_block_devices() {
    let mut m = machine(Some(vec![0; 8192]));
    m.block_device = true;
    m.kernel_size = (0, 8192);
    m.succeeds(Options { force: true, ..options("/dev/sda1") });
    assert_eq!(ne_word(m.bytes(), 1028), 9);

    m.kernel_size = (-1, 0);
    m.size_line = "16\n";
    m.succeeds(Options { force: true, ..options("/dev/sda1") });
    assert_eq!(ne_word(m.bytes(), 1028), 9);
}

#[test]
fn pages_past_the_end_are_bad() {
    let mut m = machine(Some(vec![0; 30000]));
    m.succeeds(Options {
        force: true,
        check: true,
        ..options("swap")
    });
    assert_eq!(ne_word(m.bytes(), 1032), 3);
    assert_eq!(ne_word(m.bytes(), 1536), 7);
    assert_eq!(ne_word(m.bytes(), 1540), 8);
    assert_eq!(ne_word(m.bytes(), 1544), 9);
}

#[test]
fn second_runs_change_nothing() {
    let again = |force| Options {
        uuid: Some("4adbb628-19fa-4bef-9c60-8ce030381672".to_string()),
        label: Some("SWAP".to_string()),
        offset: Some(512),
        check: true,
        force,
        ..options("swap")
    };
    for (size, force) in [(50000, false), (50000, true), (100, true)] {
        let mut m = machine(Some(vec![0xaa; size]));
        let report = m.succeeds(again(force));
        let first = m.bytes().to_vec();
        assert_eq!(m.succeeds(again(force)), report);
        assert_eq!(m.bytes(), first);
        assert_eq!(m.writes, 2);
    }
}

#[test]
fn notes_are_known_before_a_page_without_room() {
    let forced = Options {
        pagesize: Some(1024),
        force: true,
        verbose: true,
        check: true,
        ..options("/tmp/swap")
    };
    let (run, _) = mkswap(forced).unwrap();
    let (run, _) = run.step(Event::PageSize { pagesize: 4096, page_size: 4096 });
    let (run, _) = run.step(Event::Device(DeviceEvent::Succeeded));
    let status = Event::Status { owner: 7, euid: 0, block_device: false, size: 10240 };
    let owner = "mkswap: swap: insecure file owner 7, fix with: chown 0:0 /tmp/swap";
    assert_eq!(run.note_on(&status).unwrap().message(), owner);
    let (mut run, step) = run.step(status);
    assert_eq!(step.note.unwrap().message(), owner);
    for _ in 1..9 {
        assert_eq!(run.note_on(&Event::Page { readable: true }), None);
        run = run.step(Event::Page { readable: true }).0;
    }
    let last = Event::Page { readable: false };
    assert!(!run.accepts(&last));
    assert_eq!(run.note_on(&last).unwrap().message(), "bad page at index 9");
    assert_eq!(run.note_on(&Event::Written), None);
}

#[test]
fn runs_that_are_over_take_nothing() {
    let (run, _) = mkswap(options("swap")).unwrap();
    assert!(!run.accepts(&Event::Written));
    let (run, step) = run.step(Event::Failed { reason: "no".to_string() });
    assert!(matches!(step.action, Action::Fail(SetupError::Io { .. })));
    assert!(!run.accepts(&Event::Written));
    assert!(!run.accepts(&Event::Failed { reason: "no".to_string() }));
}

#[test]
fn few_huge_pages_are_refused() {
    for (size, e) in [
        (u64::MAX - 1, MkswapError::SwapAreaTooSmall { min_swapsize: u64::MAX }),
        (u64::MAX, MkswapError::TooFewPages { pages: 3 }),
    ] {
        let huge = Options {
            pagesize: Some(1 << 62),
            ..options("/dev/sda")
        };
        let (run, _) = mkswap(huge).unwrap();
        let (run, _) = run.step(Event::PageSize { pagesize: 4096, page_size: 4096 });
        let (run, _) = run.step(Event::Device(DeviceEvent::Succeeded));
        let status = Event::Status { owner: 0, euid: 0, block_device: true, size: 0 };
        let (run, _) = run.step(status);
        let told = Event::BlockSize { status: 0, size };
        assert!(run.accepts(&told));
        let (_, step) = run.step(told);
        match step.action {
            Action::Fail(failure) => assert_eq!(failure, SetupError::Area(e)),
            _ => panic!("there are too few pages"),
        }
    }
}

#[test]
fn sizes_of_new_files_wrap_around() {
    for (size, expected) in [(1 << 62, 1 << 62), (u64::MAX, -1), (1 << 63, i64::MIN)] {
        let (run, _) = mkswap(new_file("swap", size)).unwrap();
        let (run, _) = run.step(Event::PageSize { pagesize: 4096, page_size: 4096 });
        let (run, _) = run.step(Event::Device(DeviceEvent::Succeeded));
        let (run, _) = run.step(Event::Device(DeviceEvent::Succeeded));
        let other = DeviceEvent::FileSystem(FileSystem::Other);
        let (_, step) = run.step(Event::Device(other));
        match step.action {
            Action::Device(DeviceAction::Allocate { length }) => assert_eq!(length, expected),
            _ => panic!("the file gets its blocks"),
        }
    }
}
