//! Opening the device and finding out how large it is.

use crate::error::{Note, SetupError};
use crate::request::Request;
use crate::text::{
    decimal_digits, decimals_are_accepted, decimals_read_back, is_number, number, parse_u64,
    parse_u64_message, parsed_u64, same_text, trim, trimmed, white_space_around_a_text_is_trimmed,
    without_plus,
};
use vstd::prelude::*;

verus! {

/// A path without the slashes at its end and without final components that
/// are a single dot, the first component aside.
pub open spec fn without_trailing(path: Seq<char>) -> Seq<char>
    decreases path.len(),
{
    if path.len() > 0 && path.last() == '/' {
        without_trailing(path.drop_last())
    } else if path.len() > 1 && path.last() == '.' && path[path.len() - 2] == '/' {
        without_trailing(path.drop_last())
    } else {
        path
    }
}

/// What follows the last slash.
pub open spec fn after_last_slash(path: Seq<char>) -> Seq<char>
    decreases path.len(),
{
    if path.len() == 0 || path.last() == '/' {
        Seq::empty()
    } else {
        after_last_slash(path.drop_last()).push(path.last())
    }
}

/// The final component of a path, unless it is one of the two dots or none.
pub open spec fn final_component(path: Seq<char>) -> Option<Seq<char>> {
    let name = after_last_slash(without_trailing(path));
    if name.len() == 0 || name == "."@ || name == ".."@ {
        None
    } else {
        Some(name)
    }
}

/// `std::path::Path::file_name` on a Unix system: the final component of the
/// path. Repeated slashes, slashes at the end and components that are a single
/// dot are passed over, a dot at the very beginning aside; where the path ends
/// in `..`, or has no component with a name, there is none.
#[verifier::external_body]
fn file_name(path: &str) -> (r: Option<&str>)
    ensures
        match r {
            Some(name) => final_component(path@) == Some(name@),
            None => final_component(path@) is None,
        },
{
    std::path::Path::new(path).file_name().and_then(|name| name.to_str())
}

/// `text` without the prefix `/dev/`, if it has it.
pub open spec fn without_dev(text: Seq<char>) -> Seq<char> {
    if text.len() >= 5 && text.take(5) == "/dev/"@ {
        text.skip(5)
    } else {
        text
    }
}

/// What the device at a path is called: its final component, or else the path
/// itself without `/dev/`.
pub open spec fn device_name(path: Seq<char>) -> Seq<char> {
    match final_component(path) {
        Some(name) => name,
        None => without_dev(path),
    }
}

/// Finds what the device at a path is called.
pub fn devname_of(path: &str) -> (devname: String)
    ensures
        devname@ == device_name(path@),
{
    match file_name(path) {
        Some(name) => name.to_owned(),
        None => {
            proof {
                reveal_strlit("/dev/");
            }
            let len: usize = path.unicode_len();
            if len >= 5 && same_text(path.substring_char(0, 5), "/dev/") {
                path.substring_char(5, len).to_owned()
            } else {
                path.to_owned()
            }
        },
    }
}

/// The kinds of file system that make a difference.
#[derive(Clone, Copy, Debug, PartialEq, Eq, Structural)]
pub enum FileSystem {
    Btrfs,
    Other,
}

/// What has to be done next on the way to an open device.
#[derive(Clone, Copy, Debug, PartialEq, Eq, Structural)]
pub enum DeviceAction {
    /// Open the device for reading and writing, keeping what is in it, and
    /// create it where it is missing and that is asked for.
    Open { create: bool },
    /// Set the permissions of the file.
    SetPermissions { mode: u32 },
    /// Find out what file system the file is on.
    QueryFileSystem,
    /// Read the flags of the file.
    GetFlags,
    /// Write the flags of the file.
    SetFlags { flags: i32 },
    /// Have blocks for so many bytes from the start of the file.
    Allocate { length: i64 },
    /// Nothing: the device is open.
    Done,
}

/// What came of it.
#[derive(Debug, PartialEq, Eq)]
pub enum DeviceEvent {
    Succeeded,
    FileSystem(FileSystem),
    Flags(i32),
    Failed { reason: String },
}

/// The flag that turns copy-on-write off for a file.
pub const FS_NOCOW_FL: u32 = 0x0080_0000;

/// Reads and writes for the owner, nothing for others.
pub const SWAP_FILE_MODE: u32 = 0o600;

/// `linux_raw_sys::general::FS_NOCOW_FL`: the kernel's number for the flag.
#[verifier::external_body]
fn nocow_flag() -> (flag: u32)
    ensures
        flag == FS_NOCOW_FL,
{
    linux_raw_sys::general::FS_NOCOW_FL
}

/// A file size as the kernel's signed offset, which wraps around.
pub open spec fn as_offset(filesize: u64) -> i64 {
    if filesize <= i64::MAX {
        filesize as i64
    } else {
        (filesize - 0x1_0000_0000_0000_0000) as i64
    }
}

impl Request {
    /// What follows an action on the device and what came of it. An answer that
    /// does not belong to the action changes nothing.
    pub open spec fn after_action(self, action: DeviceAction, event: DeviceEvent) -> Result<
        DeviceAction,
        SetupError,
    > {
        match (action, event) {
            (DeviceAction::Done, _) => Ok(DeviceAction::Done),
            (DeviceAction::Open { .. }, DeviceEvent::Failed { reason }) => Err(
                SetupError::CannotOpen { path: self.device, reason },
            ),
            (DeviceAction::Allocate { .. }, DeviceEvent::Failed { reason }) => Err(
                SetupError::FallocateFailed {
                    util_name: self.util_name,
                    path: self.device,
                    reason,
                },
            ),
            (_, DeviceEvent::Failed { reason }) => Err(SetupError::Io { reason }),
            (DeviceAction::Open { create }, DeviceEvent::Succeeded) => Ok(
                if create {
                    DeviceAction::SetPermissions { mode: SWAP_FILE_MODE }
                } else {
                    DeviceAction::Done
                },
            ),
            (DeviceAction::SetPermissions { .. }, DeviceEvent::Succeeded) => Ok(
                DeviceAction::QueryFileSystem,
            ),
            (DeviceAction::QueryFileSystem, DeviceEvent::FileSystem(FileSystem::Btrfs)) => Ok(
                DeviceAction::GetFlags,
            ),
            (DeviceAction::QueryFileSystem, DeviceEvent::FileSystem(FileSystem::Other)) => Ok(
                DeviceAction::Allocate { length: as_offset(self.filesize) },
            ),
            (DeviceAction::GetFlags, DeviceEvent::Flags(flags)) => Ok(
                DeviceAction::SetFlags { flags: flags | FS_NOCOW_FL as i32 },
            ),
            (DeviceAction::SetFlags { .. }, DeviceEvent::Succeeded) => Ok(
                DeviceAction::Allocate { length: as_offset(self.filesize) },
            ),
            (DeviceAction::Allocate { .. }, DeviceEvent::Succeeded) => Ok(DeviceAction::Done),
            (action, _) => Ok(action),
        }
    }

    /// What opening the device begins with.
    pub fn open_device(&self) -> (action: DeviceAction)
        ensures
            action == (DeviceAction::Open { create: self.create }),
    {
        DeviceAction::Open { create: self.create }
    }

    /// The request for the blocks of the file.
    fn allocation(&self) -> (action: DeviceAction)
        ensures
            action == (DeviceAction::Allocate { length: as_offset(self.filesize) }),
    {
        let length: i64 = if self.filesize <= i64::MAX as u64 {
            self.filesize as i64
        } else {
            -((u64::MAX - self.filesize) as i64) - 1
        };
        DeviceAction::Allocate { length }
    }

    /// Decides what follows an action on the device. A new file is made
    /// readable for its owner alone, on Btrfs it is taken out of copy-on-write,
    /// without which the kernel would not swap to it, and it gets its blocks,
    /// so that it has no holes.
    pub fn device_step(&self, action: DeviceAction, event: DeviceEvent) -> (r: Result<
        DeviceAction,
        SetupError,
    >)
        ensures
            r == self.after_action(action, event),
    {
        match (action, event) {
            (DeviceAction::Done, _) => Ok(DeviceAction::Done),
            (DeviceAction::Open { .. }, DeviceEvent::Failed { reason }) => {
                Err(SetupError::CannotOpen { path: self.device.clone(), reason })
            },
            (DeviceAction::Allocate { .. }, DeviceEvent::Failed { reason }) => {
                Err(
                    SetupError::FallocateFailed {
                        util_name: self.util_name.clone(),
                        path: self.device.clone(),
                        reason,
                    },
                )
            },
            (_, DeviceEvent::Failed { reason }) => Err(SetupError::Io { reason }),
            (DeviceAction::Open { create }, DeviceEvent::Succeeded) => {
                if create {
                    Ok(DeviceAction::SetPermissions { mode: SWAP_FILE_MODE })
                } else {
                    Ok(DeviceAction::Done)
                }
            },
            (DeviceAction::SetPermissions { .. }, DeviceEvent::Succeeded) => {
                Ok(DeviceAction::QueryFileSystem)
            },
            (DeviceAction::QueryFileSystem, DeviceEvent::FileSystem(FileSystem::Btrfs)) => {
                Ok(DeviceAction::GetFlags)
            },
            (DeviceAction::QueryFileSystem, DeviceEvent::FileSystem(FileSystem::Other)) => {
                Ok(self.allocation())
            },
            (DeviceAction::GetFlags, DeviceEvent::Flags(flags)) => {
                Ok(DeviceAction::SetFlags { flags: flags | nocow_flag() as i32 })
            },
            (DeviceAction::SetFlags { .. }, DeviceEvent::Succeeded) => Ok(self.allocation()),
            (DeviceAction::Allocate { .. }, DeviceEvent::Succeeded) => Ok(DeviceAction::Done),
            (action, _) => Ok(action),
        }
    }

    /// The warning where root sets up a device that belongs to somebody else.
    pub open spec fn note_on_owner(self, owner: u32, euid: u32) -> Option<Note> {
        if owner != 0 && euid == 0 {
            Some(
                Note::InsecureOwner {
                    util_name: self.util_name,
                    devname: self.devname,
                    uid: owner,
                    path: self.device,
                },
            )
        } else {
            None
        }
    }

    /// Warns where root sets up a device that belongs to somebody else.
    pub fn owner_note(&self, owner: u32, euid: u32) -> (note: Option<Note>)
        ensures
            note == self.note_on_owner(owner, euid),
    {
        if owner != 0 && euid == 0 {
            Some(
                Note::InsecureOwner {
                    util_name: self.util_name.clone(),
                    devname: self.devname.clone(),
                    uid: owner,
                    path: self.device.clone(),
                },
            )
        } else {
            None
        }
    }
}

/// The size of a block device, if the kernel's answer to the question for it
/// counts.
pub fn answered_size(status: i32, size: u64) -> (r: Option<u64>)
    ensures
        r == if size == 0 || status < 0 {
            None
        } else {
            Some(size)
        },
{
    if size == 0 || status < 0 {
        None
    } else {
        Some(size)
    }
}

/// The path of the file that tells the size of a block device.
pub open spec fn size_file(devname: Seq<char>) -> Seq<char> {
    "/sys/class/block/"@ + devname + "/size"@
}

/// Makes the path of the file that tells the size of a block device.
pub fn size_file_path(devname: &str) -> (path: String)
    ensures
        path@ == size_file(devname@),
{
    let mut path = "/sys/class/block/".to_owned();
    path.append(devname);
    path.append("/size");
    path
}

/// The size in bytes that a line tells in sectors of 512 bytes.
pub open spec fn size_told(line: Seq<char>) -> Option<int> {
    match parsed_u64(trimmed(line)) {
        Some(sectors) => Some(sectors * 512),
        None => None,
    }
}

/// Whether `r` is the size that the line tells, or what is wrong with it.
pub open spec fn is_size_of(
    r: Result<u64, SetupError>,
    line: Seq<char>,
    devname: Seq<char>,
) -> bool {
    match r {
        Ok(size) => line.len() > 0 && size_told(line) == Some(size as int),
        Err(SetupError::EmptySizeFile { devname: name }) => line.len() == 0 && name@ == devname,
        Err(SetupError::InvalidSize { devname: name, reason }) => {
            &&& line.len() > 0
            &&& size_told(line) is None
            &&& name@ == devname
            &&& reason@ == parse_u64_message(trimmed(line))
        },
        Err(SetupError::SizeUnknown) => {
            &&& line.len() > 0
            &&& size_told(line) is Some
            &&& size_told(line)->0 > u64::MAX
        },
        Err(_) => false,
    }
}

/// Finds the size of a block device in the first line of the file that tells
/// it. A file without a line gives an empty one.
pub fn size_from_line(line: &str, devname: &str) -> (r: Result<u64, SetupError>)
    ensures
        is_size_of(r, line@, devname@),
{
    if line.is_empty() {
        return Err(SetupError::EmptySizeFile { devname: devname.to_owned() });
    }
    match parse_u64(trim(line)) {
        Ok(sectors) => match sectors.checked_mul(512) {
            Some(size) => Ok(size),
            None => Err(SetupError::SizeUnknown),
        },
        Err(reason) => Err(SetupError::InvalidSize { devname: devname.to_owned(), reason }),
    }
}

/// A device that is not to be created is opened and left as it is: whatever
/// comes of it, nothing else is ever done on the way.
pub proof fn existing_devices_are_only_opened(
    request: Request,
    action: DeviceAction,
    event: DeviceEvent,
)
    requires
        action == (DeviceAction::Open { create: false }) || action is Done,
    ensures
        request.after_action(action, event) matches Ok(next) ==> {
            ||| next == (DeviceAction::Open { create: false })
            ||| next is Done
        },
{
}

/// A device that is open was either there before or has got its blocks.
pub proof fn new_files_are_allocated(request: Request, action: DeviceAction, event: DeviceEvent)
    requires
        request.after_action(action, event) == Ok::<_, SetupError>(DeviceAction::Done),
        action != DeviceAction::Done,
    ensures
        event is Succeeded,
        action == (DeviceAction::Open { create: false }) || action is Allocate,
{
}

/// The flags of a file are looked at only where it is on Btrfs.
pub proof fn flags_are_read_on_btrfs_alone(
    request: Request,
    action: DeviceAction,
    event: DeviceEvent,
)
    requires
        request.after_action(action, event) == Ok::<_, SetupError>(DeviceAction::GetFlags),
        !(action is GetFlags),
    ensures
        action is QueryFileSystem,
        event == DeviceEvent::FileSystem(FileSystem::Btrfs),
{
}

/// The flags of a file are written only once they have been read, and then one
/// more is set and the others are kept.
pub proof fn only_the_nocow_flag_is_added(
    request: Request,
    action: DeviceAction,
    event: DeviceEvent,
    flags: i32,
)
    requires
        request.after_action(action, event) == Ok::<_, SetupError>(
            DeviceAction::SetFlags { flags },
        ),
        !(action is SetFlags),
    ensures
        action is GetFlags,
        event matches DeviceEvent::Flags(read) && {
            &&& flags & 0x0080_0000i32 == 0x0080_0000i32
            &&& forall|mask: i32|
                #![trigger flags & mask]
                mask & 0x0080_0000i32 == 0 ==> flags & mask == read & mask
        },
{
    let read = event->Flags_0;
    assert(FS_NOCOW_FL as i32 == 0x0080_0000i32);
    assert(flags == read | 0x0080_0000i32);
    assert((read | 0x0080_0000i32) & 0x0080_0000i32 == 0x0080_0000i32) by (bit_vector);
    assert forall|mask: i32| #![trigger flags & mask] mask & 0x0080_0000i32 == 0 implies flags
        & mask == read & mask by {
        assert(mask & 0x0080_0000i32 == 0 ==> (read | 0x0080_0000i32) & mask == read & mask)
            by (bit_vector);
    }
}

/// A device is called by what follows the last slash of its path, where that is a
/// name, and by its path where there is no slash.
pub proof fn devices_are_called_by_their_names(directory: Seq<char>, name: Seq<char>)
    requires
        name.len() > 0,
        forall|i: int| 0 <= i < name.len() ==> #[trigger] name[i] != '/',
        name != "."@,
        name != ".."@,
    ensures
        device_name(name) == name,
        device_name(directory + seq!['/'] + name) == name,
{
    reveal_strlit(".");
    let path = directory + seq!['/'] + name;
    assert(path.last() == name.last());
    if path.last() == '.' && path[path.len() - 2] == '/' {
        if name.len() > 1 {
            assert(path[path.len() - 2] == name[name.len() - 2]);
        }
        assert(name =~= "."@);
    }
    if name.len() > 1 {
        assert(name[name.len() - 2] != '/');
    }
    assert(without_trailing(path) == path);
    assert(without_trailing(name) == name);
    lemma_after_last_slash(directory + seq!['/'], name);
    lemma_after_last_slash(Seq::empty(), name);
    assert(Seq::<char>::empty() + name =~= name);
}

proof fn lemma_after_last_slash(before: Seq<char>, name: Seq<char>)
    requires
        before.len() == 0 || before.last() == '/',
        forall|i: int| 0 <= i < name.len() ==> #[trigger] name[i] != '/',
    ensures
        after_last_slash(before + name) == name,
    decreases name.len(),
{
    if name.len() == 0 {
        assert(before + name =~= before);
    } else {
        lemma_after_last_slash(before, name.drop_last());
        assert((before + name).drop_last() =~= before + name.drop_last());
        assert((before + name).last() == name.last());
        assert(name.drop_last().push(name.last()) =~= name);
    }
}

/// Slashes at the end of a path make no difference.
pub proof fn slashes_at_the_end_do_not_count(path: Seq<char>)
    ensures
        final_component(path + seq!['/']) == final_component(path),
{
    assert((path + seq!['/']).drop_last() =~= path);
}

/// Where the path of a device has no final component, the device is called by the
/// path, without `/dev/` before it.
pub proof fn other_devices_are_called_by_their_paths(rest: Seq<char>)
    ensures
        final_component("/dev/"@ + rest) is None ==> device_name("/dev/"@ + rest) == rest,
        final_component(rest) is None && !("/dev/"@.is_prefix_of(rest)) ==> device_name(rest)
            == rest,
{
    reveal_strlit("/dev/");
    assert(("/dev/"@ + rest).take(5) =~= "/dev/"@);
    assert(("/dev/"@ + rest).skip(5) =~= rest);
    if rest.len() >= 5 && rest.take(5) == "/dev/"@ {
        assert("/dev/"@.is_prefix_of(rest)) by {
            assert(rest.subrange(0, 5) =~= rest.take(5));
        }
    }
}

/// A line with the number of sectors on it, and white space around it, tells 512
/// times as many bytes.
pub proof fn lines_tell_sectors(n: nat, before: Seq<char>, after: Seq<char>)
    requires
        forall|i: int|
            0 <= i < before.len() ==> crate::text::is_white_space(#[trigger] before[i]),
        forall|i: int| 0 <= i < after.len() ==> crate::text::is_white_space(#[trigger] after[i]),
    ensures
        size_told(before + decimal_digits(n) + after) == if n <= u64::MAX {
            Some((n * 512) as int)
        } else {
            None
        },
{
    let digits = decimal_digits(n);
    decimals_read_back(n);
    decimals_are_accepted(n);
    assert('0' <= digits[0] <= '9' && '0' <= digits[digits.len() - 1] <= '9');
    white_space_around_a_text_is_trimmed(before, digits, after);
}

/// A line that tells a size has a number on it and white space, and nothing else
/// but perhaps a plus sign.
pub proof fn lines_that_tell_a_size_have_a_number(line: Seq<char>)
    requires
        size_told(line) is Some,
    ensures
        ({
            let digits = without_plus(trimmed(line));
            &&& is_number(digits)
            &&& size_told(line)->0 == number(digits) * 512
        }),
{
}

impl Request {
    /// Whether of a list of actions on the device and of answers to them, action
    /// `i` is answered and the next one follows from that.
    pub open spec fn goes_on_after(
        self,
        actions: Seq<DeviceAction>,
        answers: Seq<DeviceEvent>,
        i: int,
    ) -> bool {
        &&& self.after_action(actions[i], answers[i]) == Ok::<_, SetupError>(actions[i + 1])
        &&& !(actions[i] is Done)
        &&& actions[i + 1] != actions[i]
    }
}

/// A new file is prepared in full before it is used: it is opened, made readable
/// and writable for its owner alone, on Btrfs taken out of copy-on-write with its
/// other flags kept, and given blocks for as many bytes as were asked for. Nothing
/// else is done to it.
pub proof fn new_files_are_prepared_in_full(
    request: Request,
    actions: Seq<DeviceAction>,
    answers: Seq<DeviceEvent>,
)
    requires
        actions.len() == answers.len() + 1,
        actions[0] == (DeviceAction::Open { create: true }),
        forall|i: int|
            0 <= i < answers.len() ==> #[trigger] request.goes_on_after(actions, answers, i),
        actions.last() is Done,
    ensures
        answers[0] is Succeeded,
        actions[1] == (DeviceAction::SetPermissions { mode: 0o600 }),
        answers[1] is Succeeded,
        actions[2] is QueryFileSystem,
        answers[2] is FileSystem,
        ({
            let length = actions[actions.len() - 2]->Allocate_length;
            &&& actions[actions.len() - 2] is Allocate
            &&& length == request.filesize || length == request.filesize - 0x1_0000_0000_0000_0000
            &&& answers.last() is Succeeded
        }),
        if answers[2]->FileSystem_0 is Btrfs {
            &&& answers.len() == 6
            &&& actions[3] is GetFlags
            &&& answers[3] is Flags
            &&& actions[4] == (DeviceAction::SetFlags {
                flags: answers[3]->Flags_0 | 0x0080_0000i32,
            })
            &&& answers[4] is Succeeded
        } else {
            answers.len() == 4
        },
{
    assert(FS_NOCOW_FL as i32 == 0x0080_0000i32);
    assert(answers.len() > 0);
    assert(request.goes_on_after(actions, answers, 0));
    assert(request.goes_on_after(actions, answers, 1));
    assert(request.goes_on_after(actions, answers, 2));
    assert(request.goes_on_after(actions, answers, 3));
    if answers[2]->FileSystem_0 is Btrfs {
        assert(request.goes_on_after(actions, answers, 4));
        assert(request.goes_on_after(actions, answers, 5));
        if answers.len() > 6 {
            assert(request.goes_on_after(actions, answers, 6));
        }
    } else if answers.len() > 4 {
        assert(request.goes_on_after(actions, answers, 4));
    }
}

/// Whatever flags a file on Btrfs has, they are written back with copy-on-write
/// turned off, before it gets its blocks.
pub proof fn copy_on_write_is_turned_off(request: Request, read: i32)
    ensures
        request.after_action(DeviceAction::GetFlags, DeviceEvent::Flags(read)) matches Ok(
            DeviceAction::SetFlags { flags },
        ) && flags & 0x0080_0000i32 == 0x0080_0000i32,
{
    assert(FS_NOCOW_FL as i32 == 0x0080_0000i32);
    assert((read | 0x0080_0000i32) & 0x0080_0000i32 == 0x0080_0000i32) by (bit_vector);
}

/// A file gets its blocks once it is known not to be on Btrfs, or once its flags
/// have been written, and at no other time.
pub proof fn blocks_come_last(request: Request, action: DeviceAction, event: DeviceEvent)
    requires
        request.after_action(action, event) matches Ok(next) && next is Allocate,
        !(action is Allocate),
    ensures
        ({
            ||| action is QueryFileSystem && event == DeviceEvent::FileSystem(FileSystem::Other)
            ||| action is SetFlags && event is Succeeded
        }),
{
}

/// Whatever is done to the device, the run ends where it fails, says which of its
/// steps that was, and passes the reason on; it ends for no other cause.
pub proof fn failures_on_the_device_are_told(
    request: Request,
    action: DeviceAction,
    event: DeviceEvent,
)
    requires
        !(action is Done),
    ensures
        request.after_action(action, event) is Err <==> event is Failed,
        event matches DeviceEvent::Failed { reason } ==> {
            let e = request.after_action(action, event)->Err_0;
            match action {
                DeviceAction::Open { .. } => e == (SetupError::CannotOpen {
                    path: request.device,
                    reason,
                }),
                DeviceAction::Allocate { .. } => e == (SetupError::FallocateFailed {
                    util_name: request.util_name,
                    path: request.device,
                    reason,
                }),
                _ => e == (SetupError::Io { reason }),
            }
        },
{
}

/// Once an action on the device has been answered, another one follows; the same
/// one does so only where the answer is none to it.
pub proof fn answered_actions_are_not_repeated(
    request: Request,
    action: DeviceAction,
    event: DeviceEvent,
)
    requires
        !(action is Done),
        match event {
            DeviceEvent::Failed { .. } => false,
            DeviceEvent::FileSystem(_) => action is QueryFileSystem,
            DeviceEvent::Flags(_) => action is GetFlags,
            DeviceEvent::Succeeded => !(action is QueryFileSystem) && !(action is GetFlags),
        },
    ensures
        request.after_action(action, event) matches Ok(next) && next != action,
{
}

/// What is no answer to the action that was asked for changes nothing: the action
/// is asked for again.
pub proof fn other_answers_change_nothing(
    request: Request,
    action: DeviceAction,
    event: DeviceEvent,
)
    requires
        match event {
            DeviceEvent::Failed { .. } => action is Done,
            DeviceEvent::FileSystem(_) => !(action is QueryFileSystem),
            DeviceEvent::Flags(_) => !(action is GetFlags),
            DeviceEvent::Succeeded => action is QueryFileSystem || action is GetFlags
                || action is Done,
        },
    ensures
        request.after_action(action, event) == Ok::<_, SetupError>(action),
{
}

} // verus!
