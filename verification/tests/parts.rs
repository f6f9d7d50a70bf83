use mkswap::area::{count_pages, min_swapsize};
use mkswap::device::{answered_size, devname_of, size_file_path, size_from_line};
use mkswap::endian::{ByteOrder, Endian};
use mkswap::error::{MkswapError, Note, SetupError};
use mkswap::header::{signature_page, SwapHeader, BADPAGES_OFFSET, SWAP_HEADER_SIZE};
use mkswap::pagesize::{choose_pagesize, getpagesize};
use mkswap::scan::PageScan;
use mkswap::text::decimal;

#[test]
fn numbers_are_written_in_decimal() {
    for n in [0, 9, 10, 12345, 1_000_000, u64::MAX] {
        assert_eq!(decimal(n), n.to_string());
    }
}

#[test]
fn values_are_converted_for_this_machine() {
    assert_eq!(Endian::Native.convert(0x0102_0304), 0x0102_0304);
    assert_eq!(Endian::Little.convert(0x0102_0304), 0x0102_0304u32.to_le());
    assert_eq!(Endian::Big.convert(0x0102_0304), 0x0102_0304u32.to_be());
}

#[test]
fn values_are_converted_for_any_machine() {
    let value = 0x0102_0304;
    for host in [ByteOrder::Little, ByteOrder::Big] {
        assert_eq!(Endian::Native.convert_on(host, value), value);
        let little = Endian::Little.convert_on(host, value);
        assert_eq!(host.to_bytes(little), [4, 3, 2, 1]);
        let big = Endian::Big.convert_on(host, value);
        assert_eq!(host.to_bytes(big), [1, 2, 3, 4]);
        assert_eq!(Endian::Big.convert_on(host, big), value);
        assert_eq!(Endian::Little.convert_on(host, little), value);
    }
    assert_eq!(Endian::Big.convert_on(ByteOrder::Little, value), 0x0403_0201);
}

#[test]
fn names_of_endianness_have_no_case() {
    assert_eq!(Endian::from_name("Native"), Some(Endian::Native));
    assert_eq!(Endian::from_name("LITTLE"), Some(Endian::Little));
    assert_eq!(Endian::from_name("big"), Some(Endian::Big));
    assert_eq!(Endian::from_name("bigger"), None);
    assert_eq!(Endian::from_name(""), None);
    assert_eq!(Endian::from_lowercase("big"), Some(Endian::Big));
    assert_eq!(Endian::from_lowercase("BIG"), None);
}

#[test]
fn header_layout() {
    assert_eq!(BADPAGES_OFFSET, 1536);
    assert_eq!(SWAP_HEADER_SIZE, 1540);
}

#[test]
fn new_headers_are_empty() {
    let header = SwapHeader::new();
    assert_eq!(header.version, 1);
    assert_eq!(header.last_page, 0);
    assert_eq!(header.nr_badpages, 0);
    assert_eq!(header.uuid, [0; 16]);
    assert_eq!(header.label, [0; 16]);
}

#[test]
fn labels_count_in_bytes() {
    let header = SwapHeader::new().label("0123456789abcdef").unwrap();
    assert_eq!(&header.label, b"0123456789abcdef");
    let header = header.label("xy").unwrap();
    assert_eq!(&header.label, b"xy23456789abcdef");
    assert_eq!(
        SwapHeader::new().label("0123456789abcdeé").unwrap_err(),
        MkswapError::TooLongLabel
    );
    let header = SwapHeader::new().label("é").unwrap();
    assert_eq!(header.label[..3], [0xc3, 0xa9, 0]);
}

#[test]
fn headers_need_ten_pages() {
    let e = SwapHeader::new().pages(9).unwrap_err();
    assert_eq!(e, MkswapError::TooFewPages { pages: 9 });
    assert_eq!(
        e.message(),
        "Too few pages for a swap area (9), minimum is 10"
    );
    assert_eq!(SwapHeader::new().pages(10).unwrap().last_page, 9);
}

#[test]
fn headers_count_bad_pages() {
    let header = SwapHeader::new().nr_badpages(&[5, 6], 1554).unwrap();
    assert_eq!(header.nr_badpages, 2);
    assert_eq!(
        SwapHeader::new().nr_badpages(&[5, 6], 1553).unwrap_err(),
        MkswapError::MaxBadPagesExceeded { max_badpages: 1 }
    );
}

#[test]
fn endianness_reaches_three_fields() {
    let header = SwapHeader::new()
        .pages(10)
        .unwrap()
        .uuid([7; 16])
        .nr_badpages(&[1], 4096)
        .unwrap()
        .set_endian(ByteOrder::Little, Endian::Big);
    assert_eq!(header.version, 1 << 24);
    assert_eq!(header.last_page, 9 << 24);
    assert_eq!(header.nr_badpages, 1 << 24);
    assert_eq!(header.uuid, [7; 16]);
}

#[test]
fn buffers_grow_under_a_header() {
    let mut buffer = vec![0xff; 20];
    SwapHeader::new().write_to(ByteOrder::Little, &mut buffer, 20);
    assert_eq!(buffer.len(), 1068);
    assert!(buffer[..10].iter().all(|b| *b == 0));
    assert_eq!(&buffer[10..20], b"SWAPSPACE2");
    assert_eq!(buffer[1024..1028], [1, 0, 0, 0]);
    let mut buffer = Vec::new();
    SwapHeader::new().write_to(ByteOrder::Big, &mut buffer, 2000);
    assert_eq!(buffer.len(), 2000);
    assert_eq!(buffer[1024..1028], [0, 0, 0, 1]);
    assert_eq!(&buffer[1990..], b"SWAPSPACE2");
}

#[test]
fn pages_hold_what_is_put_into_them() {
    for host in [ByteOrder::Little, ByteOrder::Big] {
        let page =
            signature_page(host, Endian::Big, "L", [3; 16], 300, &[258, 299], 2048).unwrap();
        assert_eq!(page.len(), 2048);
        assert!(page[..1024].iter().all(|b| *b == 0));
        assert_eq!(page[1024..1036], [0, 0, 0, 1, 0, 0, 1, 43, 0, 0, 0, 2]);
        assert_eq!(page[1036..1052], [3; 16]);
        assert_eq!(page[1052], b'L');
        assert!(page[1053..1536].iter().all(|b| *b == 0));
        assert_eq!(page[1536..1544], [0, 0, 1, 2, 0, 0, 1, 43]);
        assert!(page[1544..2038].iter().all(|b| *b == 0));
        assert_eq!(&page[2038..], b"SWAPSPACE2");
    }
}

#[test]
fn what_is_wrong_with_a_page_is_told_in_order() {
    let long = "0123456789abcdef0";
    let host = ByteOrder::Little;
    let r = signature_page(host, Endian::Native, long, [0; 16], 1, &[1], 1546);
    assert_eq!(r, Err(MkswapError::TooLongLabel));
    let r = signature_page(host, Endian::Native, "", [0; 16], 1, &[1], 1546);
    assert_eq!(r, Err(MkswapError::TooFewPages { pages: 1 }));
    let r = signature_page(host, Endian::Native, "", [0; 16], 10, &[1], 1546);
    assert_eq!(r, Err(MkswapError::MaxBadPagesExceeded { max_badpages: 0 }));
}

#[test]
fn system_page_sizes() {
    assert_eq!(getpagesize(4096, 1), Ok(4096));
    assert_eq!(getpagesize(-1, 16384), Ok(16384));
    assert_eq!(getpagesize(0, 16384), Ok(16384));
    let e = getpagesize(0, -1).unwrap_err();
    assert_eq!(e, SetupError::PageSizeUnknown);
    assert_eq!(
        e.message(),
        "Failed to determine page size, please check your system configuration"
    );
    assert_eq!(
        SetupError::PageSizeTooLarge.message(),
        format!("Page size too large, max page size: {}", usize::MAX)
    );
}

#[test]
fn page_sizes_of_the_user() {
    assert_eq!(choose_pagesize(None, false, 4096), Ok((4096, None)));
    assert_eq!(choose_pagesize(Some(4096), false, 4096), Ok((4096, None)));
    let note = Note::OtherPageSize { user: 2048, system: 4096 };
    assert_eq!(choose_pagesize(Some(2048), false, 4096), Ok((2048, Some(note))));
    for bad in [0, 1, 512, 1024, 1550, 1551, 3000, 4095, 4097] {
        let e = SetupError::BadPageSize { pagesize: bad };
        assert_eq!(choose_pagesize(Some(bad), false, 4096), Err(e));
        let note = Note::OtherPageSize { user: bad, system: 4096 };
        assert_eq!(choose_pagesize(Some(bad), true, 4096), Ok((bad, Some(note))));
    }
}

#[test]
fn devices_are_called_by_their_last_component() {
    for (path, name) in [
        ("/dev/sda1", "sda1"),
        ("swapfile", "swapfile"),
        ("dir//swap.file//", "swap.file"),
        ("dir/swap/./.", "swap"),
        ("/dev/mapper/vg-swap", "vg-swap"),
        ("a/...", "..."),
        ("", ""),
        ("/", "/"),
        (".", "."),
        ("./.", "./."),
        ("a/..", "a/.."),
        ("/dev/..", ".."),
        ("/dev/../", "../"),
    ] {
        assert_eq!(devname_of(path), name);
    }
}

#[test]
fn kernel_answers_about_sizes() {
    assert_eq!(answered_size(0, 512), Some(512));
    assert_eq!(answered_size(1, 512), Some(512));
    assert_eq!(answered_size(-1, 512), None);
    assert_eq!(answered_size(0, 0), None);
}

#[test]
fn size_files_tell_sectors() {
    assert_eq!(size_file_path("sda"), "/sys/class/block/sda/size");
    assert_eq!(size_from_line("80\n", "sda"), Ok(40960));
    assert_eq!(size_from_line(" \t+80\u{2003}\n", "sda"), Ok(40960));
    assert_eq!(size_from_line("0", "sda"), Ok(0));
    assert_eq!(
        size_from_line("36028797018963967", "sda"),
        Ok(18446744073709551104)
    );
    assert_eq!(
        size_from_line("36028797018963968", "sda"),
        Err(SetupError::SizeUnknown)
    );
    assert_eq!(
        size_from_line("", "sda"),
        Err(SetupError::EmptySizeFile { devname: "sda".to_string() })
    );
    for line in ["\n", "8 0", "-8", "+", "0x8", "18446744073709551616"] {
        let e = size_from_line(line, "sda").unwrap_err();
        assert!(matches!(e, SetupError::InvalidSize { .. }));
    }
}

#[test]
fn least_sizes() {
    assert_eq!(min_swapsize(4096), 40960);
    assert_eq!(min_swapsize(0), 0);
    assert_eq!(min_swapsize(usize::MAX), u64::MAX);
}

#[test]
fn whole_pages_are_counted() {
    assert_eq!(count_pages(40960, 0, 4096, false), Ok(10));
    assert_eq!(count_pages(45055, 0, 4096, false), Ok(10));
    assert_eq!(count_pages(45056, 4096, 4096, false), Ok(10));
    let small = SetupError::Area(MkswapError::SwapAreaTooSmall { min_swapsize: 40960 });
    assert_eq!(count_pages(45055, 4096, 4096, false), Err(small));
    let small = SetupError::Area(MkswapError::SwapAreaTooSmall { min_swapsize: 40960 });
    assert_eq!(count_pages(10, 20, 4096, false), Err(small));
    assert_eq!(count_pages((4096 << 32) - 1, 0, 4096, false), Ok(u32::MAX));
    assert_eq!(
        count_pages(4096 << 32, 0, 4096, false),
        Err(SetupError::AreaTooLarge { max_gib: 16383 })
    );
    assert_eq!(count_pages(u64::MAX, 0, 1 << 62, false), Ok(3));
}

#[test]
fn forced_areas_have_ten_pages_at_least() {
    assert_eq!(count_pages(40959, 0, 4096, true), Ok(10));
    assert_eq!(count_pages(0, 0, 4096, true), Ok(10));
    assert_eq!(count_pages(10, 20, 4096, true), Ok(10));
    assert_eq!(count_pages(45056, 0, 4096, true), Ok(11));
    assert_eq!(
        count_pages(4096 << 32, 0, 4096, true),
        Err(SetupError::AreaTooLarge { max_gib: 16383 })
    );
    assert_eq!(count_pages(0, u64::MAX - 40960, 4096, true), Ok(10));
    let small = SetupError::Area(MkswapError::SwapAreaTooSmall { min_swapsize: 40960 });
    assert_eq!(count_pages(0, u64::MAX - 40959, 4096, true), Err(small));
    let small = SetupError::Area(MkswapError::SwapAreaTooSmall { min_swapsize: u64::MAX });
    assert_eq!(count_pages(0, 0, 1 << 62, true), Err(small));
}

#[test]
fn scans_begin_with_the_second_page() {
    let mut scan = PageScan::new(4096, 4, 512);
    let mut positions = Vec::new();
    while let Some(position) = scan.position() {
        positions.push(position);
        let readable = position != 512 + 8192;
        let note = scan.record(readable, true);
        if readable {
            assert_eq!(note, None);
        } else {
            assert_eq!(note, Some(Note::BadPage { page: 2 }));
        }
    }
    assert_eq!(positions, [512 + 4096, 512 + 8192, 512 + 12288]);
    assert_eq!(scan.badpages, [2]);
    assert_eq!(PageScan::new(4096, 1, 0).position(), None);
}

#[test]
fn shorter_scans_list_less() {
    let outcomes = [true, false, true, false, false];
    let full = [2, 4, 5];
    for (pages, listed) in [(2, 0), (3, 1), (4, 1), (5, 2), (6, 3)] {
        let mut scan = PageScan::new(4096, pages, 0);
        for readable in &outcomes[..pages as usize - 1] {
            scan.record(*readable, false);
        }
        assert_eq!(scan.position(), None);
        assert_eq!(scan.badpages, full[..listed]);
    }
}

#[test]
fn errors_end_with_status_one() {
    assert_eq!(MkswapError::TooLongLabel.code(), 1);
    assert!(!MkswapError::TooLongLabel.usage());
    assert_eq!(SetupError::SizeUnknown.code(), 1);
}
