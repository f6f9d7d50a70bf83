//! The header of a swap area and the page that carries it.
//!
//! The first page of a swap area is laid out as follows.
//!
//! | from           | what                                        |
//! |----------------|---------------------------------------------|
//! | 0              | left to a boot loader                       |
//! | 1024           | version                                     |
//! | 1028           | number of the last page                     |
//! | 1032           | number of bad pages                         |
//! | 1036           | UUID                                        |
//! | 1052           | label, filled up with zeros                 |
//! | 1068           | unused                                      |
//! | 1536           | the numbers of the bad pages                |
//! | page size - 10 | signature                                   |

use crate::endian::{ByteOrder, Endian};
use crate::endian::{converted_values_read_back, decode_inverts_encode};
use crate::error::MkswapError;
use vstd::prelude::*;
use vstd::utf8::encode_utf8;

verus! {

/// The bytes at the start of the area that are left to a boot loader.
pub const BOOTBITS_SIZE: usize = 1024;

/// What stands at the end of the first page of a swap area: `SWAPSPACE2`.
pub const SWAP_SIGNATURE: [u8; 10] = [0x53, 0x57, 0x41, 0x50, 0x53, 0x50, 0x41, 0x43, 0x45, 0x32];

pub const SWAP_SIGNATURE_SZ: usize = 10;

pub const SWAP_LABEL_LENGTH: usize = 16;

pub const SWAP_VERSION: u32 = 1;

pub const MIN_SWAP_PAGES: u32 = 10;

pub const SWAP_UUID_LENGTH: usize = 16;

/// Where the fields of the header end.
pub const HEADER_FIELDS_END: usize = BOOTBITS_SIZE + 4 + 4 + 4 + SWAP_UUID_LENGTH
    + SWAP_LABEL_LENGTH;

/// Where the list of bad pages begins: after 117 unused words.
pub const BADPAGES_OFFSET: usize = HEADER_FIELDS_END + 117 * 4;

/// The size of the header with room for one bad page.
pub const SWAP_HEADER_SIZE: usize = BADPAGES_OFFSET + 4;

/// The smallest page that has room for the header before the signature.
pub const MIN_HEADER_PAGE: usize = BADPAGES_OFFSET + SWAP_SIGNATURE_SZ;

/// `n` zero bytes.
pub open spec fn zeros(n: nat) -> Seq<u8> {
    Seq::new(n, |i: int| 0u8)
}

/// What a buffer holds once `bytes` have been written into it from `at` on: it
/// grows where they reach past its end, and a gap before them is zero.
pub open spec fn overlaid(buffer: Seq<u8>, at: nat, bytes: Seq<u8>) -> Seq<u8> {
    let end = at + bytes.len();
    Seq::new(
        if end > buffer.len() {
            end
        } else {
            buffer.len()
        },
        |i: int|
            if at <= i < end {
                bytes[i - at]
            } else if i < buffer.len() {
                buffer[i]
            } else {
                0u8
            },
    )
}

/// Writes `bytes` into `buffer` from `at` on.
fn write_at(buffer: &mut Vec<u8>, at: usize, bytes: &[u8])
    requires
        at + bytes@.len() <= usize::MAX,
    ensures
        final(buffer)@ == overlaid(old(buffer)@, at as nat, bytes@),
{
    let end: usize = at + bytes.len();
    while buffer.len() < end
        invariant
            buffer@.len() >= old(buffer)@.len(),
            buffer@.len() <= end || buffer@.len() == old(buffer)@.len(),
            forall|k: int|
                0 <= k < buffer@.len() ==> #[trigger] buffer@[k] == if k < old(buffer)@.len() {
                    old(buffer)@[k]
                } else {
                    0u8
                },
        decreases end - buffer.len(),
    {
        buffer.push(0);
    }
    let ghost grown = buffer@;
    let mut i: usize = 0;
    while i < bytes.len()
        invariant
            i <= bytes@.len(),
            end == at + bytes@.len(),
            end <= buffer@.len(),
            buffer@.len() == grown.len(),
            forall|k: int|
                0 <= k < grown.len() ==> #[trigger] buffer@[k] == if at <= k < at + i {
                    bytes@[k - at]
                } else {
                    grown[k]
                },
        decreases bytes.len() - i,
    {
        buffer[at + i] = bytes[i];
        i += 1;
    }
    assert(buffer@ =~= overlaid(old(buffer)@, at as nat, bytes@));
}

/// Two writes one after the other are one write of both.
proof fn lemma_overlaid_twice(buffer: Seq<u8>, at: nat, a: Seq<u8>, b: Seq<u8>)
    ensures
        overlaid(overlaid(buffer, at, a), at + a.len(), b) == overlaid(buffer, at, a + b),
{
    assert(overlaid(overlaid(buffer, at, a), at + a.len(), b) =~= overlaid(buffer, at, a + b));
}

/// The fields of the header of a swap area, as the machine keeps them.
#[derive(Clone, Copy, Debug)]
pub struct SwapHeader {
    pub version: u32,
    pub last_page: u32,
    pub nr_badpages: u32,
    pub uuid: [u8; 16],
    pub label: [u8; 16],
}

/// The most bad pages that a page of the given size can list.
pub open spec fn max_badpages(pagesize: nat) -> int {
    (pagesize - SWAP_SIGNATURE_SZ - BADPAGES_OFFSET) / 4
}

impl SwapHeader {
    /// A header of the current version with nothing else in it.
    pub fn new() -> (header: Self)
        ensures
            header.version == SWAP_VERSION,
            header.last_page == 0,
            header.nr_badpages == 0,
            header.uuid@ == zeros(16),
            header.label@ == zeros(16),
    {
        let header = SwapHeader {
            version: SWAP_VERSION,
            last_page: 0,
            nr_badpages: 0,
            uuid: [0u8; 16],
            label: [0u8; 16],
        };
        assert(header.uuid@ =~= zeros(16));
        header
    }

    /// Puts a label in place, whose length counts in bytes.
    pub fn label(self, swaplabel: &str) -> (r: Result<Self, MkswapError>)
        ensures
            match r {
                Ok(header) => {
                    &&& encode_utf8(swaplabel@).len() <= SWAP_LABEL_LENGTH
                    &&& header == (SwapHeader { label: header.label, ..self })
                    &&& header.label@ == encode_utf8(swaplabel@) + self.label@.skip(
                        encode_utf8(swaplabel@).len() as int,
                    )
                },
                Err(e) => {
                    &&& encode_utf8(swaplabel@).len() > SWAP_LABEL_LENGTH
                    &&& e == MkswapError::TooLongLabel
                },
            },
    {
        let bytes = swaplabel.as_bytes();
        if bytes.len() > SWAP_LABEL_LENGTH {
            return Err(MkswapError::TooLongLabel);
        }
        let mut header = self;
        let mut i: usize = 0;
        while i < bytes.len()
            invariant
                i <= bytes@.len() <= 16,
                header == (SwapHeader { label: header.label, ..self }),
                forall|k: int|
                    0 <= k < 16 ==> #[trigger] header.label@[k] == if k < i {
                        bytes@[k]
                    } else {
                        self.label@[k]
                    },
            decreases bytes.len() - i,
        {
            header.label[i] = bytes[i];
            i += 1;
        }
        assert(header.label@ =~= bytes@ + self.label@.skip(bytes@.len() as int));
        Ok(header)
    }

    /// Puts a UUID in place.
    pub fn uuid(self, uuid: [u8; 16]) -> (header: Self)
        ensures
            header == (SwapHeader { uuid, ..self }),
    {
        SwapHeader { uuid, ..self }
    }

    /// Sets the size of the area in pages.
    pub fn pages(self, pages: u32) -> (r: Result<Self, MkswapError>)
        ensures
            r == if pages < MIN_SWAP_PAGES {
                Err(MkswapError::TooFewPages { pages })
            } else {
                Ok(SwapHeader { last_page: (pages - 1) as u32, ..self })
            },
    {
        if pages < MIN_SWAP_PAGES {
            return Err(MkswapError::TooFewPages { pages });
        }
        Ok(SwapHeader { last_page: pages - 1, ..self })
    }

    /// Counts the bad pages, which have to fit between the header and the
    /// signature.
    pub fn nr_badpages(self, badpages: &[u32], pagesize: usize) -> (r: Result<Self, MkswapError>)
        requires
            pagesize >= MIN_HEADER_PAGE,
        ensures
            r == if badpages@.len() > max_badpages(pagesize as nat) {
                Err(
                    MkswapError::MaxBadPagesExceeded {
                        max_badpages: max_badpages(pagesize as nat) as usize,
                    },
                )
            } else {
                Ok(SwapHeader { nr_badpages: badpages@.len() as u32, ..self })
            },
    {
        let max_badpages: usize = ((pagesize - SWAP_SIGNATURE_SZ) - BADPAGES_OFFSET) / 4;
        if badpages.len() > max_badpages {
            return Err(MkswapError::MaxBadPagesExceeded { max_badpages });
        }
        Ok(SwapHeader { nr_badpages: badpages.len() as u32, ..self })
    }

    /// Gives the version, the last page and the number of bad pages the
    /// endianness that was asked for. It comes last, once the fields are set.
    pub fn set_endian(self, host: ByteOrder, endianness: Endian) -> (header: Self)
        ensures
            header == (SwapHeader {
                version: endianness.converted(host, self.version),
                last_page: endianness.converted(host, self.last_page),
                nr_badpages: endianness.converted(host, self.nr_badpages),
                ..self
            }),
    {
        SwapHeader {
            version: endianness.convert_on(host, self.version),
            last_page: endianness.convert_on(host, self.last_page),
            nr_badpages: endianness.convert_on(host, self.nr_badpages),
            ..self
        }
    }

    /// The bytes of the area up to the end of the header's fields, written by a
    /// machine of order `host`.
    pub open spec fn encoded(self, host: ByteOrder) -> Seq<u8> {
        zeros(BOOTBITS_SIZE as nat) + host.encode(self.version) + host.encode(self.last_page)
            + host.encode(self.nr_badpages) + self.uuid@ + self.label@
    }

    /// Writes the header and the signature into a buffer that is to hold a page
    /// of the given size.
    pub fn write_to(&self, host: ByteOrder, buffer: &mut Vec<u8>, pagesize: usize)
        requires
            pagesize >= SWAP_SIGNATURE_SZ,
        ensures
            final(buffer)@ == overlaid(
                overlaid(old(buffer)@, 0, self.encoded(host)),
                (pagesize - SWAP_SIGNATURE_SZ) as nat,
                SWAP_SIGNATURE@,
            ),
    {
        let bootbits: Vec<u8> = vec![0u8; BOOTBITS_SIZE];
        let version = host.to_bytes(self.version);
        let last_page = host.to_bytes(self.last_page);
        let nr_badpages = host.to_bytes(self.nr_badpages);
        proof {
            assert(bootbits@ =~= zeros(BOOTBITS_SIZE as nat));
            let before = old(buffer)@;
            let b1 = bootbits@;
            let b2 = b1 + version@;
            let b3 = b2 + last_page@;
            let b4 = b3 + nr_badpages@;
            let b5 = b4 + self.uuid@;
            lemma_overlaid_twice(before, 0, b1, version@);
            lemma_overlaid_twice(before, 0, b2, last_page@);
            lemma_overlaid_twice(before, 0, b3, nr_badpages@);
            lemma_overlaid_twice(before, 0, b4, self.uuid@);
            lemma_overlaid_twice(before, 0, b5, self.label@);
        }
        write_at(buffer, 0, bootbits.as_slice());
        write_at(buffer, 1024, version.as_slice());
        write_at(buffer, 1028, last_page.as_slice());
        write_at(buffer, 1032, nr_badpages.as_slice());
        write_at(buffer, 1036, self.uuid.as_slice());
        write_at(buffer, 1052, self.label.as_slice());
        let signature = SWAP_SIGNATURE;
        write_at(buffer, pagesize - SWAP_SIGNATURE_SZ, signature.as_slice());
    }
}

/// The words of `pages` one after the other in the given order.
pub open spec fn encoded_list(order: ByteOrder, pages: Seq<u32>) -> Seq<u8> {
    Seq::new(4 * pages.len(), |i: int| order.encode(pages[i / 4])[i % 4])
}

/// The first page of a swap area whose fields are in the given order.
pub open spec fn page_image(
    order: ByteOrder,
    label: Seq<u8>,
    uuid: Seq<u8>,
    pages: u32,
    badpages: Seq<u32>,
    pagesize: nat,
) -> Seq<u8> {
    zeros(BOOTBITS_SIZE as nat) + order.encode(SWAP_VERSION) + order.encode((pages - 1) as u32)
        + order.encode(badpages.len() as u32) + uuid + label + zeros(
        (SWAP_LABEL_LENGTH - label.len()) as nat,
    ) + zeros((BADPAGES_OFFSET - HEADER_FIELDS_END) as nat) + encoded_list(order, badpages) + zeros(
        (pagesize - SWAP_SIGNATURE_SZ - BADPAGES_OFFSET - 4 * badpages.len()) as nat,
    ) + SWAP_SIGNATURE@
}

/// What keeps such a page from being made, the label before the size and the
/// size before the bad pages.
pub open spec fn page_error(
    label: Seq<u8>,
    pages: u32,
    badpages: Seq<u32>,
    pagesize: nat,
) -> Option<MkswapError> {
    if label.len() > SWAP_LABEL_LENGTH {
        Some(MkswapError::TooLongLabel)
    } else if pages < MIN_SWAP_PAGES {
        Some(MkswapError::TooFewPages { pages })
    } else if badpages.len() > max_badpages(pagesize) {
        Some(MkswapError::MaxBadPagesExceeded { max_badpages: max_badpages(pagesize) as usize })
    } else {
        None
    }
}

proof fn lemma_append_twice(a: Seq<u8>, b: Seq<u8>, c: Seq<u8>)
    ensures
        a + b + c == a + (b + c),
{
    assert(a + b + c =~= a + (b + c));
}

/// Makes the first page of a swap area on a machine of order `host`.
#[verifier::rlimit(40)]
pub fn signature_page(
    host: ByteOrder,
    endianness: Endian,
    label: &str,
    uuid: [u8; 16],
    pages: u32,
    badpages: &[u32],
    pagesize: usize,
) -> (r: Result<Vec<u8>, MkswapError>)
    requires
        pagesize >= MIN_HEADER_PAGE,
    ensures
        match r {
            Ok(page) => {
                &&& page_error(encode_utf8(label@), pages, badpages@, pagesize as nat) is None
                &&& page@ == page_image(
                    endianness.on_disk(host),
                    encode_utf8(label@),
                    uuid@,
                    pages,
                    badpages@,
                    pagesize as nat,
                )
            },
            Err(e) => page_error(encode_utf8(label@), pages, badpages@, pagesize as nat) == Some(e),
        },
{
    let header = SwapHeader::new().label(label)?.pages(pages)?.uuid(uuid).nr_badpages(
        badpages,
        pagesize,
    )?.set_endian(host, endianness);
    let mut page: Vec<u8> = vec![0u8; pagesize];
    header.write_to(host, &mut page, pagesize);
    let ghost base = page@;
    let ghost order = endianness.on_disk(host);
    let ghost list = encoded_list(order, badpages@);
    let mut i: usize = 0;
    while i < badpages.len()
        invariant
            i <= badpages@.len() <= max_badpages(pagesize as nat),
            pagesize >= MIN_HEADER_PAGE,
            order == endianness.on_disk(host),
            list == encoded_list(order, badpages@),
            base.len() == pagesize,
            page@.len() == base.len(),
            forall|k: int|
                0 <= k < base.len() ==> #[trigger] page@[k] == if BADPAGES_OFFSET <= k
                    < BADPAGES_OFFSET + 4 * i {
                    list[k - BADPAGES_OFFSET]
                } else {
                    base[k]
                },
        decreases badpages.len() - i,
    {
        let word = host.to_bytes(endianness.convert_on(host, badpages[i]));
        proof {
            converted_values_read_back(endianness, host, badpages@[i as int]);
        }
        write_at(&mut page, BADPAGES_OFFSET + 4 * i, word.as_slice());
        i += 1;
    }
    proof {
        converted_values_read_back(endianness, host, SWAP_VERSION);
        converted_values_read_back(endianness, host, (pages - 1) as u32);
        converted_values_read_back(endianness, host, badpages@.len() as u32);
        let label_bytes = encode_utf8(label@);
        let fields = header.encoded(host);
        let gap = (pagesize - SWAP_SIGNATURE_SZ - BADPAGES_OFFSET - list.len()) as nat;
        assert(page@ =~= fields + zeros((BADPAGES_OFFSET - HEADER_FIELDS_END) as nat) + list
            + zeros(gap) + SWAP_SIGNATURE@);
        assert(zeros(16).skip(label_bytes.len() as int) =~= zeros(
            (SWAP_LABEL_LENGTH - label_bytes.len()) as nat,
        ));
        lemma_append_twice(
            zeros(BOOTBITS_SIZE as nat) + order.encode(SWAP_VERSION) + order.encode(
                (pages - 1) as u32,
            ) + order.encode(badpages@.len() as u32) + uuid@,
            label_bytes,
            zeros((SWAP_LABEL_LENGTH - label_bytes.len()) as nat),
        );
    }
    Ok(page)
}

/// Whether a reader that knows the byte order finds a swap area at `at`: the
/// version, the last page, the bad pages, the UUID, the label and the signature
/// in their places.
pub open spec fn holds_area(
    bytes: Seq<u8>,
    at: int,
    order: ByteOrder,
    label: Seq<u8>,
    uuid: Seq<u8>,
    pages: u32,
    badpages: Seq<u32>,
    pagesize: nat,
) -> bool {
    &&& order.decode(bytes, at + 1024) == SWAP_VERSION
    &&& order.decode(bytes, at + 1028) == pages - 1
    &&& order.decode(bytes, at + 1032) == badpages.len()
    &&& bytes.subrange(at + 1036, at + 1052) == uuid
    &&& bytes.subrange(at + 1052, at + 1052 + label.len()) == label
    &&& forall|i: int|
        at + 1052 + label.len() <= i < at + HEADER_FIELDS_END ==> #[trigger] bytes[i] == 0
    &&& forall|i: int|
        0 <= i < badpages.len() ==> order.decode(bytes, at + BADPAGES_OFFSET + 4 * i)
            == #[trigger] badpages[i]
    &&& bytes.subrange(at + pagesize - SWAP_SIGNATURE_SZ, at + pagesize) == SWAP_SIGNATURE@
}

/// The first page of a swap area holds what was put into it, and nothing where
/// a boot loader may stand.
pub proof fn page_reads_back(
    order: ByteOrder,
    label: Seq<u8>,
    uuid: Seq<u8>,
    pages: u32,
    badpages: Seq<u32>,
    pagesize: nat,
)
    requires
        pagesize >= MIN_HEADER_PAGE,
        uuid.len() == SWAP_UUID_LENGTH,
        badpages.len() <= u32::MAX,
        page_error(label, pages, badpages, pagesize) is None,
    ensures
        ({
            let page = page_image(order, label, uuid, pages, badpages, pagesize);
            &&& page.len() == pagesize
            &&& forall|i: int| 0 <= i < BOOTBITS_SIZE ==> #[trigger] page[i] == 0
            &&& holds_area(page, 0, order, label, uuid, pages, badpages, pagesize)
        }),
{
    let page = page_image(order, label, uuid, pages, badpages, pagesize);
    let list = encoded_list(order, badpages);
    let fields = zeros(BOOTBITS_SIZE as nat) + order.encode(SWAP_VERSION) + order.encode(
        (pages - 1) as u32,
    ) + order.encode(badpages.len() as u32) + uuid;
    let pad = zeros((SWAP_LABEL_LENGTH - label.len()) as nat);
    let gap = zeros((BADPAGES_OFFSET - HEADER_FIELDS_END) as nat);
    let rest = zeros((pagesize - SWAP_SIGNATURE_SZ - BADPAGES_OFFSET - 4 * badpages.len()) as nat);
    assert(page == fields + label + pad + gap + list + rest + SWAP_SIGNATURE@);
    decode_inverts_encode(order, SWAP_VERSION);
    decode_inverts_encode(order, (pages - 1) as u32);
    decode_inverts_encode(order, badpages.len() as u32);
    assert(forall|i: int| 0 <= i < 1052 ==> #[trigger] page[i] == fields[i]);
    assert(page.subrange(1036, 1052) =~= uuid);
    assert(page.subrange(1052, 1052int + label.len()) =~= label);
    assert(page.subrange(pagesize - 10, pagesize as int) =~= SWAP_SIGNATURE@);
    assert forall|i: int| 0 <= i < badpages.len() implies order.decode(
        page,
        0 + BADPAGES_OFFSET + 4 * i,
    ) == #[trigger] badpages[i] by {
        decode_inverts_encode(order, badpages[i]);
        assert forall|k: int| 0 <= k < 4 implies #[trigger] page[1536 + 4 * i + k] == order.encode(
            badpages[i],
        )[k] by {
            assert(page[1536 + 4 * i + k] == list[4 * i + k]);
            assert((4 * i + k) / 4 == i && (4 * i + k) % 4 == k);
        }
        assert(page[1536 + 4 * i + 0] == order.encode(badpages[i])[0]);
    }
}

/// The same four bytes read the same wherever they stand.
proof fn lemma_decode_elsewhere(
    order: ByteOrder,
    page: Seq<u8>,
    device: Seq<u8>,
    start: int,
    place: int,
)
    requires
        forall|i: int| place <= i < place + 4 ==> #[trigger] page[i] == device[start + i],
    ensures
        order.decode(device, start + place) == order.decode(page, place),
{
    assert(page[place] == device[start + place]);
    assert(page[place + 1] == device[start + (place + 1)]);
    assert(page[place + 2] == device[start + (place + 2)]);
    assert(page[place + 3] == device[start + (place + 3)]);
}

/// A page that holds an area still does where all of it but the bytes that are
/// left to a boot loader has been copied to.
proof fn lemma_area_elsewhere(
    page: Seq<u8>,
    device: Seq<u8>,
    start: int,
    order: ByteOrder,
    label: Seq<u8>,
    uuid: Seq<u8>,
    pages: u32,
    badpages: Seq<u32>,
    pagesize: nat,
)
    requires
        pagesize >= MIN_HEADER_PAGE,
        label.len() <= SWAP_LABEL_LENGTH,
        badpages.len() <= max_badpages(pagesize),
        page.len() == pagesize,
        0 <= start,
        start + pagesize <= device.len(),
        forall|i: int| BOOTBITS_SIZE <= i < pagesize ==> #[trigger] page[i] == device[start + i],
        holds_area(page, 0, order, label, uuid, pages, badpages, pagesize),
    ensures
        holds_area(device, start, order, label, uuid, pages, badpages, pagesize),
{
    lemma_decode_elsewhere(order, page, device, start, 1024);
    lemma_decode_elsewhere(order, page, device, start, 1028);
    lemma_decode_elsewhere(order, page, device, start, 1032);
    lemma_copied_part(page, device, start, 1036, 1052);
    lemma_copied_part(page, device, start, 1052, 1052int + label.len());
    lemma_copied_part(page, device, start, pagesize - SWAP_SIGNATURE_SZ, pagesize as int);
    assert forall|i: int| start + 1052 + label.len() <= i < start + HEADER_FIELDS_END implies
        #[trigger] device[i] == 0 by {
        assert(page[i - start] == device[start + (i - start)]);
    }
    assert forall|i: int| 0 <= i < badpages.len() implies order.decode(
        device,
        start + BADPAGES_OFFSET + 4 * i,
    ) == #[trigger] badpages[i] by {
        lemma_decode_elsewhere(order, page, device, start, BADPAGES_OFFSET + 4 * i);
        assert(order.decode(page, 0 + BADPAGES_OFFSET + 4 * i) == badpages[i]);
    }
}

/// A part of a page is found where the page has been copied to.
proof fn lemma_copied_part(page: Seq<u8>, device: Seq<u8>, start: int, from: int, to: int)
    requires
        0 <= from <= to <= page.len(),
        0 <= start,
        start + page.len() <= device.len(),
        forall|i: int| from <= i < to ==> #[trigger] page[i] == device[start + i],
    ensures
        device.subrange(start + from, start + to) == page.subrange(from, to),
{
    assert forall|i: int| 0 <= i < to - from implies #[trigger] device.subrange(
        start + from,
        start + to,
    )[i] == page.subrange(from, to)[i] by {
        assert(page[from + i] == device[start + (from + i)]);
    }
    assert(device.subrange(start + from, start + to) =~= page.subrange(from, to));
}

/// What a write changes on a device and what it leaves.
proof fn lemma_written_page(device: Seq<u8>, at: nat, page: Seq<u8>, after: Seq<u8>)
    requires
        page.len() >= BOOTBITS_SIZE,
        after == overlaid(device, at + BOOTBITS_SIZE as nat, page.skip(BOOTBITS_SIZE as int)),
    ensures
        after.len() == if at + page.len() > device.len() {
            at + page.len()
        } else {
            device.len()
        },
        forall|i: int|
            0 <= i < device.len() && !(at + BOOTBITS_SIZE <= i < at + page.len())
                ==> #[trigger] after[i] == device[i],
        forall|i: int| BOOTBITS_SIZE <= i < page.len() ==> #[trigger] page[i] == after[at + i],
{
    assert forall|i: int| BOOTBITS_SIZE <= i < page.len() implies #[trigger] page[i] == after[at
        + i] by {
        assert(page[i] == page.skip(BOOTBITS_SIZE as int)[i - BOOTBITS_SIZE]);
    }
}

/// Once the first page of a swap area has been written to a device, without the
/// bytes that are left to a boot loader, the device holds the area, and all
/// else on it is as it was. A file that ends before the page does grows to its
/// end.
pub proof fn written_page_reads_back(
    device: Seq<u8>,
    at: nat,
    order: ByteOrder,
    label: Seq<u8>,
    uuid: Seq<u8>,
    pages: u32,
    badpages: Seq<u32>,
    pagesize: nat,
)
    requires
        pagesize >= MIN_HEADER_PAGE,
        uuid.len() == SWAP_UUID_LENGTH,
        badpages.len() <= u32::MAX,
        page_error(label, pages, badpages, pagesize) is None,
    ensures
        ({
            let page = page_image(order, label, uuid, pages, badpages, pagesize);
            let after = overlaid(
                device,
                at + BOOTBITS_SIZE as nat,
                page.skip(BOOTBITS_SIZE as int),
            );
            &&& after.len() == if at + pagesize > device.len() {
                at + pagesize
            } else {
                device.len()
            }
            &&& forall|i: int|
                0 <= i < device.len() && !(at + BOOTBITS_SIZE <= i < at + pagesize)
                    ==> #[trigger] after[i] == device[i]
            &&& holds_area(after, at as int, order, label, uuid, pages, badpages, pagesize)
        }),
{
    let page = page_image(order, label, uuid, pages, badpages, pagesize);
    let after = overlaid(device, at + BOOTBITS_SIZE as nat, page.skip(BOOTBITS_SIZE as int));
    page_reads_back(order, label, uuid, pages, badpages, pagesize);
    lemma_written_page(device, at, page, after);
    lemma_area_elsewhere(
        page,
        after,
        at as int,
        order,
        label,
        uuid,
        pages,
        badpages,
        pagesize,
    );
}

/// Writing the same once more changes nothing.
pub proof fn writing_again_changes_nothing(device: Seq<u8>, at: nat, bytes: Seq<u8>)
    ensures
        overlaid(overlaid(device, at, bytes), at, bytes) == overlaid(device, at, bytes),
{
    assert(overlaid(overlaid(device, at, bytes), at, bytes) =~= overlaid(device, at, bytes));
}

/// The bytes of the first page of a swap area that belong to no field are zero.
pub proof fn unused_bytes_are_zero(
    order: ByteOrder,
    label: Seq<u8>,
    uuid: Seq<u8>,
    pages: u32,
    badpages: Seq<u32>,
    pagesize: nat,
)
    requires
        pagesize >= MIN_HEADER_PAGE,
        uuid.len() == SWAP_UUID_LENGTH,
        page_error(label, pages, badpages, pagesize) is None,
    ensures
        ({
            let page = page_image(order, label, uuid, pages, badpages, pagesize);
            &&& page.len() == pagesize
            &&& forall|i: int|
                {
                    ||| 0 <= i < 1024
                    ||| 1052 + label.len() <= i < 1536
                    ||| 1536 + 4 * badpages.len() <= i < pagesize - 10
                } ==> #[trigger] page[i] == 0
        }),
{
    let page = page_image(order, label, uuid, pages, badpages, pagesize);
    let list = encoded_list(order, badpages);
    let fields = zeros(BOOTBITS_SIZE as nat) + order.encode(SWAP_VERSION) + order.encode(
        (pages - 1) as u32,
    ) + order.encode(badpages.len() as u32) + uuid;
    let pad = zeros((SWAP_LABEL_LENGTH - label.len()) as nat);
    let gap = zeros((BADPAGES_OFFSET - HEADER_FIELDS_END) as nat);
    let rest = zeros((pagesize - SWAP_SIGNATURE_SZ - BADPAGES_OFFSET - 4 * badpages.len()) as nat);
    assert(page == fields + label + pad + gap + list + rest + SWAP_SIGNATURE@);
    assert(forall|i: int| 0 <= i < 1024 ==> #[trigger] page[i] == fields[i]);
}

/// The first page of an area can be made exactly where the label has at most 16
/// bytes, the area has at least ten pages, and the list of bad pages ends before
/// the signature. The error says which of these fails first, and how many bad pages
/// there is room for.
pub proof fn pages_are_made_where_all_fits(
    label: Seq<u8>,
    pages: u32,
    badpages: Seq<u32>,
    pagesize: usize,
)
    requires
        pagesize >= MIN_HEADER_PAGE,
    ensures
        match page_error(label, pages, badpages, pagesize as nat) {
            None => {
                &&& label.len() <= 16
                &&& pages >= 10
                &&& 1536 + 4 * badpages.len() + 10 <= pagesize
            },
            Some(MkswapError::TooLongLabel) => label.len() > 16,
            Some(MkswapError::TooFewPages { pages: few }) => {
                &&& label.len() <= 16
                &&& few == pages < 10
            },
            Some(MkswapError::MaxBadPagesExceeded { max_badpages }) => {
                &&& label.len() <= 16
                &&& pages >= 10
                &&& max_badpages < badpages.len()
                &&& 1536 + 4 * max_badpages + 10 <= pagesize < 1536 + 4 * (max_badpages + 1) + 10
            },
            Some(_) => false,
        },
{
}

} // verus!
