//! What the command line asks for, and that a run holds on to it.

use crate::device::{device_name, devices_are_called_by_their_names};
use crate::endian::ByteOrder;
use crate::error::SetupError;
use crate::request::{is_request_of, Options, Request};
use crate::text::lowercase;
use crate::uuids::{hyphenated, hyphenated_form_reads_back, uuid_error_message, uuid_of_text};
use vstd::prelude::*;
use vstd::utf8::encode_utf8;

verus! {

/// How many bytes the label has that is asked for.
pub open spec fn label_length(options: Options) -> nat {
    match options.label {
        Some(label) => encode_utf8(label@).len(),
        None => 0,
    }
}

/// Whether a text is `native`, `little` or `big`.
pub open spec fn names_an_endianness(text: Seq<char>) -> bool {
    text == "native"@ || text == "little"@ || text == "big"@
}

/// A command line is refused where it names no device, where the label has more
/// than 16 bytes, where the endianness is none of the three, or where the UUID
/// cannot be read, and for no other cause; of several causes the first is told.
pub proof fn command_lines_are_refused_for_cause(
    r: Result<Request, SetupError>,
    options: Options,
    host: ByteOrder,
    fresh: Seq<u8>,
)
    requires
        is_request_of(r, options, host, fresh),
    ensures
        ({
            let named = options.device is Some;
            let fits = label_length(options) <= 16;
            let known = options.endianness matches Some(name) ==> names_an_endianness(
                lowercase(name@),
            );
            let readable = options.uuid matches Some(text) ==> uuid_of_text(text@) is Some;
            match r {
                Ok(_) => named && fits && known && readable,
                Err(SetupError::NoDevice { util_name }) => {
                    &&& !named
                    &&& util_name == options.util_name
                },
                Err(SetupError::Area(e)) => {
                    &&& named
                    &&& !fits
                    &&& e is TooLongLabel
                },
                Err(SetupError::InvalidEndianness { name }) => {
                    &&& named
                    &&& fits
                    &&& !known
                    &&& options.endianness == Some(name)
                },
                Err(SetupError::InvalidUuid { text, reason }) => {
                    &&& named
                    &&& fits
                    &&& known
                    &&& !readable
                    &&& options.uuid == Some(text)
                    &&& reason@ == uuid_error_message(text@)
                },
                Err(_) => false,
            }
        }),
{
    if options.label is None {
        assert(encode_utf8(Seq::<char>::empty()).len() == 0);
    }
}

/// A request holds what the command line says, number for number and letter for
/// letter. What the command line leaves out is zero, empty or off, except for the
/// endianness, which is that of the machine.
pub proof fn requests_hold_what_is_asked(
    request: Request,
    options: Options,
    host: ByteOrder,
    fresh: Seq<u8>,
)
    requires
        is_request_of(Ok::<Request, SetupError>(request), options, host, fresh),
    ensures
        options.device == Some(request.device),
        request.devname@ == device_name(request.device@),
        request.util_name == options.util_name,
        options.label matches Some(label) ==> request.label@ == label@,
        options.label is None ==> request.label@.len() == 0,
        options.endianness matches Some(name) ==> {
            &&& request.endianness is Native <==> lowercase(name@) == "native"@
            &&& request.endianness is Little <==> lowercase(name@) == "little"@
            &&& request.endianness is Big <==> lowercase(name@) == "big"@
        },
        options.endianness is None ==> request.endianness is Native,
        request.host == host,
        request.pagesize == options.pagesize,
        options.filesize matches Some(filesize) ==> request.filesize == filesize,
        options.filesize is None ==> request.filesize == 0,
        options.offset matches Some(offset) ==> request.offset == offset,
        options.offset is None ==> request.offset == 0,
        request.create == options.file,
        request.check == options.check,
        request.force == options.force,
        request.verbose == options.verbose,
{
    reveal_strlit("native");
    reveal_strlit("little");
    reveal_strlit("big");
    assert("native"@[0] == 'n');
    assert("little"@[0] == 'l');
    assert("big"@[0] == 'b');
}

/// A device that is named by its path goes by what follows the last slash of it.
pub proof fn devices_go_by_their_names(
    request: Request,
    options: Options,
    host: ByteOrder,
    fresh: Seq<u8>,
    directory: Seq<char>,
    name: Seq<char>,
)
    requires
        is_request_of(Ok::<Request, SetupError>(request), options, host, fresh),
        name.len() > 0,
        forall|i: int| 0 <= i < name.len() ==> #[trigger] name[i] != '/',
        name != "."@,
        name != ".."@,
        options.device->0@ == name || options.device->0@ == directory + seq!['/'] + name,
    ensures
        request.devname@ == name,
{
    devices_are_called_by_their_names(directory, name);
}

/// The UUID of the area is the one that the command line writes out, all of its
/// bits, whatever its version; where there is none, it is the fresh one.
pub proof fn uuids_are_kept_as_they_are(
    request: Request,
    options: Options,
    host: ByteOrder,
    fresh: Seq<u8>,
    bytes: Seq<u8>,
)
    requires
        is_request_of(Ok::<Request, SetupError>(request), options, host, fresh),
        bytes.len() == 16,
    ensures
        options.uuid matches Some(text) ==> uuid_of_text(text@) == Some(request.uuid@),
        options.uuid matches Some(text) ==> text@ == hyphenated(bytes) ==> request.uuid@ == bytes,
        options.uuid is None ==> request.uuid@ == fresh,
{
    hyphenated_form_reads_back(bytes);
}

} // verus!
