//! What the user asks for.

use crate::device::{device_name, devname_of};
use crate::endian::{ByteOrder, Endian};
use crate::error::{MkswapError, SetupError};
use crate::header::SWAP_LABEL_LENGTH;
use crate::text::{ascii_lower, lowercase, same_text, to_lowercase};
use crate::uuids::{is_random_uuid, parse_uuid, random_uuid, uuid_error_message, uuid_of_text};
use vstd::prelude::*;
use vstd::utf8::encode_utf8;

verus! {

/// What stands on the command line, and the name that the program runs under.
#[derive(Debug)]
pub struct Options {
    pub util_name: String,
    pub device: Option<String>,
    pub label: Option<String>,
    pub endianness: Option<String>,
    pub uuid: Option<String>,
    pub pagesize: Option<usize>,
    pub filesize: Option<u64>,
    pub offset: Option<u64>,
    pub file: bool,
    pub check: bool,
    pub force: bool,
    pub verbose: bool,
}

/// A request that nothing is wrong with as far as the command line tells.
#[derive(Debug)]
pub struct Request {
    pub util_name: String,
    /// The path of the device or file.
    pub device: String,
    /// What the device is called in messages and by the kernel.
    pub devname: String,
    pub label: String,
    pub endianness: Endian,
    /// The byte order of the machine.
    pub host: ByteOrder,
    pub uuid: [u8; 16],
    pub pagesize: Option<usize>,
    /// The size of a file that is to be created.
    pub filesize: u64,
    /// Where the area begins on the device.
    pub offset: u64,
    /// Whether the file is to be created.
    pub create: bool,
    pub check: bool,
    pub force: bool,
    pub verbose: bool,
}

impl Endian {
    /// The endianness of a given name in lower case.
    pub open spec fn named(lower: Seq<char>) -> Option<Endian> {
        if lower == "native"@ {
            Some(Endian::Native)
        } else if lower == "little"@ {
            Some(Endian::Little)
        } else if lower == "big"@ {
            Some(Endian::Big)
        } else {
            None
        }
    }

    /// Finds the endianness of a name that is in lower case.
    pub fn from_lowercase(lower: &str) -> (r: Option<Endian>)
        ensures
            r == Endian::named(lower@),
    {
        if same_text(lower, "native") {
            Some(Endian::Native)
        } else if same_text(lower, "little") {
            Some(Endian::Little)
        } else if same_text(lower, "big") {
            Some(Endian::Big)
        } else {
            None
        }
    }

    /// Finds the endianness of a name, whatever its case.
    pub fn from_name(name: &str) -> (r: Option<Endian>)
        ensures
            r == Endian::named(lowercase(name@)),
            (forall|i: int| 0 <= i < name@.len() ==> name@[i] < '\u{80}') ==> r == Endian::named(
                name@.map_values(|c: char| ascii_lower(c)),
            ),
    {
        let lower = to_lowercase(name);
        Endian::from_lowercase(lower.as_str())
    }
}

impl Options {
    /// The label that is asked for, which may be empty.
    pub open spec fn label_text(self) -> Seq<char> {
        match self.label {
            Some(label) => label@,
            None => Seq::empty(),
        }
    }

    /// The endianness that is asked for, if there is one of that name.
    pub open spec fn endianness_asked(self) -> Option<Endian> {
        match self.endianness {
            Some(name) => Endian::named(lowercase(name@)),
            None => Some(Endian::Native),
        }
    }

    /// Whether the case of the letters makes no difference in an ASCII name of an
    /// endianness, where the name is looked at: a device is named and the label
    /// fits.
    pub open spec fn endianness_has_no_case(self) -> bool {
        self.endianness matches Some(name) ==> {
            &&& self.device is Some
            &&& encode_utf8(self.label_text()).len() <= SWAP_LABEL_LENGTH
            &&& forall|i: int| 0 <= i < name@.len() ==> name@[i] < '\u{80}'
        } ==> self.endianness_asked() == Endian::named(
            name@.map_values(|c: char| ascii_lower(c)),
        )
    }

    /// The UUID that is asked for, if it can be read, or the fresh one.
    pub open spec fn uuid_asked(self, fresh: Seq<u8>) -> Option<Seq<u8>> {
        match self.uuid {
            Some(text) => uuid_of_text(text@),
            None => Some(fresh),
        }
    }

    /// Whether nothing is wrong with the command line.
    pub open spec fn is_valid(self) -> bool {
        &&& self.device is Some
        &&& encode_utf8(self.label_text()).len() <= SWAP_LABEL_LENGTH
        &&& self.endianness_asked() is Some
        &&& self.uuid matches Some(text) ==> uuid_of_text(text@) is Some
    }
}

impl Request {
    /// Whether this is the request that the command line makes on a machine of
    /// order `host` where the fresh UUID is as given.
    pub open spec fn is_made_from(self, options: Options, host: ByteOrder, fresh: Seq<u8>) -> bool {
        &&& options.device == Some(self.device)
        &&& self.util_name == options.util_name
        &&& self.devname@ == device_name(self.device@)
        &&& self.label@ == options.label_text()
        &&& options.endianness_asked() == Some(self.endianness)
        &&& self.host == host
        &&& options.uuid_asked(fresh) == Some(self.uuid@)
        &&& self.pagesize == options.pagesize
        &&& self.filesize == match options.filesize {
            Some(filesize) => filesize,
            None => 0,
        }
        &&& self.offset == match options.offset {
            Some(offset) => offset,
            None => 0,
        }
        &&& self.create == options.file
        &&& self.check == options.check
        &&& self.force == options.force
        &&& self.verbose == options.verbose
    }
}

/// Whether `e` is the first thing that is wrong with the command line.
pub open spec fn is_refused_by(options: Options, e: SetupError) -> bool {
    if options.device is None {
        e == SetupError::NoDevice { util_name: options.util_name }
    } else if encode_utf8(options.label_text()).len() > SWAP_LABEL_LENGTH {
        e == SetupError::Area(MkswapError::TooLongLabel)
    } else if options.endianness_asked() is None {
        e == SetupError::InvalidEndianness { name: options.endianness->0 }
    } else {
        &&& options.uuid is Some
        &&& uuid_of_text(options.uuid->0@) is None
        &&& e matches SetupError::InvalidUuid { text, reason }
        &&& text == options.uuid->0
        &&& reason@ == uuid_error_message(text@)
    }
}

/// What comes of a command line: the request, or the first thing that is wrong.
pub open spec fn is_request_of(
    r: Result<Request, SetupError>,
    options: Options,
    host: ByteOrder,
    fresh: Seq<u8>,
) -> bool {
    match r {
        Ok(request) => options.is_valid() && request.is_made_from(options, host, fresh),
        Err(e) => !options.is_valid() && is_refused_by(options, e),
    }
}

impl Request {
    /// Checks a command line, given the byte order of the machine and a UUID to
    /// use where the command line has none.
    pub fn new(options: Options, host: ByteOrder, fresh: [u8; 16]) -> (r: Result<
        Request,
        SetupError,
    >)
        ensures
            is_request_of(r, options, host, fresh@),
            options.endianness_has_no_case(),
    {
        let device = match options.device {
            Some(device) => device,
            None => return Err(SetupError::NoDevice { util_name: options.util_name }),
        };
        let devname = devname_of(device.as_str());
        let label = match options.label {
            Some(label) => label,
            None => String::new(),
        };
        if label.as_str().as_bytes().len() > SWAP_LABEL_LENGTH {
            return Err(SetupError::Area(MkswapError::TooLongLabel));
        }
        let endianness = match options.endianness {
            Some(name) => match Endian::from_name(name.as_str()) {
                Some(endianness) => endianness,
                None => return Err(SetupError::InvalidEndianness { name }),
            },
            None => Endian::Native,
        };
        let uuid = match options.uuid {
            Some(text) => match parse_uuid(text.as_str()) {
                Ok(uuid) => uuid,
                Err(reason) => return Err(SetupError::InvalidUuid { text, reason }),
            },
            None => fresh,
        };
        Ok(
            Request {
                util_name: options.util_name,
                device,
                devname,
                label,
                endianness,
                host,
                uuid,
                pagesize: options.pagesize,
                filesize: match options.filesize {
                    Some(filesize) => filesize,
                    None => 0,
                },
                offset: match options.offset {
                    Some(offset) => offset,
                    None => 0,
                },
                create: options.file,
                check: options.check,
                force: options.force,
                verbose: options.verbose,
            },
        )
    }

    /// Checks a command line on this machine. Where it has no UUID, a random
    /// one is drawn.
    pub fn from_options(options: Options) -> (r: Result<Request, SetupError>)
        ensures
            exists|fresh: [u8; 16]|
                #![trigger is_request_of(r, options, ByteOrder::of_machine(), fresh@)]
                {
                    &&& is_request_of(r, options, ByteOrder::of_machine(), fresh@)
                    &&& options.uuid is None ==> is_random_uuid(fresh@)
                },
            options.endianness_has_no_case(),
    {
        let host = ByteOrder::host();
        let fresh: [u8; 16] = match options.uuid {
            Some(_) => [0u8; 16],
            None => random_uuid(),
        };
        let r = Request::new(options, host, fresh);
        assert(is_request_of(r, options, host, fresh@));
        r
    }
}

} // verus!
