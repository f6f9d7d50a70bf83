//! Why a swap area is not set up, and what the user is told.

use crate::header::{MIN_SWAP_PAGES, SWAP_LABEL_LENGTH};
use crate::text::decimal;
use crate::text::decimal_digits;
use vstd::prelude::*;

verus! {

/// What is wrong with the contents or the size of a swap area.
#[derive(Clone, Copy, Debug, PartialEq, Eq, Structural)]
pub enum MkswapError {
    TooLongLabel,
    TooFewPages { pages: u32 },
    MaxBadPagesExceeded { max_badpages: usize },
    SwapAreaTooSmall { min_swapsize: u64 },
}

impl MkswapError {
    /// What the user reads.
    pub open spec fn text(self) -> Seq<char> {
        match self {
            MkswapError::TooLongLabel => "Label is too long, maximum size is "@ + decimal_digits(
                SWAP_LABEL_LENGTH as nat,
            ) + " characters"@,
            MkswapError::TooFewPages { pages } => "Too few pages for a swap area ("@
                + decimal_digits(pages as nat) + "), minimum is "@ + decimal_digits(
                MIN_SWAP_PAGES as nat,
            ),
            MkswapError::MaxBadPagesExceeded { max_badpages } => "Too many bad pages: "@
                + decimal_digits(max_badpages as nat),
            MkswapError::SwapAreaTooSmall { min_swapsize } =>
                "error: swap area needs to be at least "@ + decimal_digits(
                min_swapsize as nat / 1024,
            ) + " KiB"@,
        }
    }

    /// Writes the error out for the user.
    pub fn message(&self) -> (message: String)
        ensures
            message@ == self.text(),
    {
        match *self {
            MkswapError::TooLongLabel => {
                let mut message = "Label is too long, maximum size is ".to_owned();
                message.append(decimal(SWAP_LABEL_LENGTH as u64).as_str());
                message.append(" characters");
                message
            },
            MkswapError::TooFewPages { pages } => {
                let mut message = "Too few pages for a swap area (".to_owned();
                message.append(decimal(pages as u64).as_str());
                message.append("), minimum is ");
                message.append(decimal(MIN_SWAP_PAGES as u64).as_str());
                message
            },
            MkswapError::MaxBadPagesExceeded { max_badpages } => {
                let mut message = "Too many bad pages: ".to_owned();
                message.append(decimal(max_badpages as u64).as_str());
                message
            },
            MkswapError::SwapAreaTooSmall { min_swapsize } => {
                let mut message = "error: swap area needs to be at least ".to_owned();
                message.append(decimal(min_swapsize / 1024).as_str());
                message.append(" KiB");
                message
            },
        }
    }

    /// The exit status that goes with the error.
    pub fn code(&self) -> (code: i32)
        ensures
            code == 1,
    {
        1
    }

    /// Whether the error calls for a note on how the program is used.
    pub fn usage(&self) -> (usage: bool)
        ensures
            !usage,
    {
        false
    }
}

/// Why a run ends without a swap area.
#[derive(Debug, PartialEq, Eq)]
pub enum SetupError {
    /// No device was named.
    NoDevice { util_name: String },
    /// The endianness is none of those that there are.
    InvalidEndianness { name: String },
    /// The UUID cannot be read.
    InvalidUuid { text: String, reason: String },
    /// The system does not tell its page size.
    PageSizeUnknown,
    /// The page size of the system does not fit.
    PageSizeTooLarge,
    /// The page size that the user gave cannot be used.
    BadPageSize { pagesize: usize },
    /// The contents or the size of the area are not right.
    Area(MkswapError),
    /// The area has more pages than can be counted.
    AreaTooLarge { max_gib: u64 },
    /// The device cannot be opened.
    CannotOpen { path: String, reason: String },
    /// The blocks of a new file cannot be had.
    FallocateFailed { util_name: String, path: String, reason: String },
    /// The file that tells the size of a block device is empty.
    EmptySizeFile { devname: String },
    /// The file that tells the size of a block device holds no number.
    InvalidSize { devname: String, reason: String },
    /// The size of a block device in bytes does not fit.
    SizeUnknown,
    /// Some other operation on the device failed.
    Io { reason: String },
}

impl SetupError {
    /// What the user reads.
    pub open spec fn text(self) -> Seq<char> {
        match self {
            SetupError::NoDevice { util_name } => "error: Nowhere to set up swap on?\nTry '"@
                + util_name@ + " --help' for more information."@,
            SetupError::InvalidEndianness { name } => "invalid endianness "@ + name@
                + " is not supported"@,
            SetupError::InvalidUuid { text, reason } => "Invalid UUID '"@ + text@ + "': "@
                + reason@,
            SetupError::PageSizeUnknown =>
                "Failed to determine page size, please check your system configuration"@,
            SetupError::PageSizeTooLarge => "Page size too large, max page size: "@
                + decimal_digits(usize::MAX as nat),
            SetupError::BadPageSize { pagesize } => "Bad user-specified page size "@
                + decimal_digits(pagesize as nat),
            SetupError::Area(e) => e.text(),
            SetupError::AreaTooLarge { max_gib } =>
                "error: swap area is too large: max size is "@ + decimal_digits(max_gib as nat)
                + " GiB"@,
            SetupError::CannotOpen { path, reason } => "cannot open "@ + path@ + ": "@ + reason@,
            SetupError::FallocateFailed { util_name, path, reason } => util_name@ + ": "@ + path@
                + ": Fallocate failed: "@ + reason@,
            SetupError::EmptySizeFile { devname } => "empty size file for block device "@
                + devname@,
            SetupError::InvalidSize { devname, reason } =>
                "Invalid size value for block device "@ + devname@ + ": "@ + reason@,
            SetupError::SizeUnknown => "Unable to determine size of block device"@,
            SetupError::Io { reason } => reason@,
        }
    }

    /// Writes the error out for the user.
    pub fn message(&self) -> (message: String)
        ensures
            message@ == self.text(),
    {
        match self {
            SetupError::NoDevice { util_name } => {
                let mut message = "error: Nowhere to set up swap on?\nTry '".to_owned();
                message.append(util_name.as_str());
                message.append(" --help' for more information.");
                message
            },
            SetupError::InvalidEndianness { name } => {
                let mut message = "invalid endianness ".to_owned();
                message.append(name.as_str());
                message.append(" is not supported");
                message
            },
            SetupError::InvalidUuid { text, reason } => {
                let mut message = "Invalid UUID '".to_owned();
                message.append(text.as_str());
                message.append("': ");
                message.append(reason.as_str());
                message
            },
            SetupError::PageSizeUnknown => {
                "Failed to determine page size, please check your system configuration".to_owned()
            },
            SetupError::PageSizeTooLarge => {
                let mut message = "Page size too large, max page size: ".to_owned();
                message.append(decimal(usize::MAX as u64).as_str());
                message
            },
            SetupError::BadPageSize { pagesize } => {
                let mut message = "Bad user-specified page size ".to_owned();
                message.append(decimal(*pagesize as u64).as_str());
                message
            },
            SetupError::Area(e) => e.message(),
            SetupError::AreaTooLarge { max_gib } => {
                let mut message = "error: swap area is too large: max size is ".to_owned();
                message.append(decimal(*max_gib).as_str());
                message.append(" GiB");
                message
            },
            SetupError::CannotOpen { path, reason } => {
                let mut message = "cannot open ".to_owned();
                message.append(path.as_str());
                message.append(": ");
                message.append(reason.as_str());
                message
            },
            SetupError::FallocateFailed { util_name, path, reason } => {
                let mut message = util_name.as_str().to_owned();
                message.append(": ");
                message.append(path.as_str());
                message.append(": Fallocate failed: ");
                message.append(reason.as_str());
                message
            },
            SetupError::EmptySizeFile { devname } => {
                let mut message = "empty size file for block device ".to_owned();
                message.append(devname.as_str());
                message
            },
            SetupError::InvalidSize { devname, reason } => {
                let mut message = "Invalid size value for block device ".to_owned();
                message.append(devname.as_str());
                message.append(": ");
                message.append(reason.as_str());
                message
            },
            SetupError::SizeUnknown => "Unable to determine size of block device".to_owned(),
            SetupError::Io { reason } => reason.as_str().to_owned(),
        }
    }

    /// The exit status that goes with the error.
    pub fn code(&self) -> (code: i32)
        ensures
            code == 1,
    {
        1
    }
}

/// What the user is told on the way, without the run coming to an end.
#[derive(Debug, PartialEq, Eq)]
pub enum Note {
    /// The page size of the user is not that of the system.
    OtherPageSize { user: usize, system: usize },
    /// The device does not belong to root though root sets it up.
    InsecureOwner { util_name: String, devname: String, uid: u32, path: String },
    /// A page cannot be read.
    BadPage { page: u32 },
}

impl Note {
    /// What the user reads.
    pub open spec fn text(self) -> Seq<char> {
        match self {
            Note::OtherPageSize { user, system } => "Using user-specified page size "@
                + decimal_digits(user as nat) + ", instead of the system value "@ + decimal_digits(
                system as nat,
            ),
            Note::InsecureOwner { util_name, devname, uid, path } => util_name@ + ": "@ + devname@
                + ": insecure file owner "@ + decimal_digits(uid as nat)
                + ", fix with: chown 0:0 "@ + path@,
            Note::BadPage { page } => "bad page at index "@ + decimal_digits(page as nat),
        }
    }

    /// Writes the note out for the user.
    pub fn message(&self) -> (message: String)
        ensures
            message@ == self.text(),
    {
        match self {
            Note::OtherPageSize { user, system } => {
                let mut message = "Using user-specified page size ".to_owned();
                message.append(decimal(*user as u64).as_str());
                message.append(", instead of the system value ");
                message.append(decimal(*system as u64).as_str());
                message
            },
            Note::InsecureOwner { util_name, devname, uid, path } => {
                let mut message = util_name.as_str().to_owned();
                message.append(": ");
                message.append(devname.as_str());
                message.append(": insecure file owner ");
                message.append(decimal(*uid as u64).as_str());
                message.append(", fix with: chown 0:0 ");
                message.append(path.as_str());
                message
            },
            Note::BadPage { page } => {
                let mut message = "bad page at index ".to_owned();
                message.append(decimal(*page as u64).as_str());
                message
            },
        }
    }
}

} // verus!
