use xlsxwriter::chart::ChartKind;
use xlsxwriter::error::XlsxError;
use xlsxwriter::number::Number;
use xlsxwriter::package::Part;
use xlsxwriter::workbook::Workbook;
use xlsxwriter::zip::{
    append_central_record, append_end_record, append_le16, append_le32, append_local_record,
    checksum, write_archive,
};

fn u16_at(bytes: &[u8], at: usize) -> usize {
    bytes[at] as usize | (bytes[at + 1] as usize) << 8
}

fn u32_at(bytes: &[u8], at: usize) -> usize {
    u16_at(bytes, at) | u16_at(bytes, at + 2) << 16
}

/// Reads an archive back by its central directory: every entry's name and
/// its data, inflated and checked against the recorded checksum and length.
fn read_back(archive: &[u8]) -> Vec<(Vec<u8>, Vec<u8>)> {
    let end = archive.len() - 22;
    assert_eq!(&archive[end..end + 4], &[0x50, 0x4b, 0x05, 0x06]);
    let count = u16_at(archive, end + 10);
    assert_eq!(u16_at(archive, end + 8), count);
    let dir_size = u32_at(archive, end + 12);
    let dir_offset = u32_at(archive, end + 16);
    assert_eq!(dir_offset + dir_size, end);
    let mut entries = Vec::new();
    let mut at = dir_offset;
    for _ in 0..count {
        assert_eq!(&archive[at..at + 4], &[0x50, 0x4b, 0x01, 0x02]);
        assert_eq!(u16_at(archive, at + 10), 8);
        let crc = u32_at(archive, at + 16);
        let packed_len = u32_at(archive, at + 20);
        let size = u32_at(archive, at + 24);
        let name_len = u16_at(archive, at + 28);
        let local = u32_at(archive, at + 42);
        let name = archive[at + 46..at + 46 + name_len].to_vec();
        at += 46 + name_len;
        assert_eq!(&archive[local..local + 4], &[0x50, 0x4b, 0x03, 0x04]);
        assert_eq!(u16_at(archive, local + 8), 8);
        assert_eq!(u32_at(archive, local + 14), crc);
        assert_eq!(u32_at(archive, local + 18), packed_len);
        assert_eq!(u32_at(archive, local + 22), size);
        assert_eq!(u16_at(archive, local + 26), name_len);
        assert_eq!(u16_at(archive, local + 28), 0);
        assert_eq!(&archive[local + 30..local + 30 + name_len], &name[..]);
        let start = local + 30 + name_len;
        let packed = &archive[start..start + packed_len];
        let data = miniz_oxide::inflate::decompress_to_vec(packed).unwrap();
        assert_eq!(data.len(), size);
        assert_eq!(checksum(&data) as usize, crc);
        entries.push((name, data));
    }
    assert_eq!(at, end);
    entries
}

#[test]
fn checksum_is_crc_32() {
    assert_eq!(checksum(b""), 0);
    assert_eq!(checksum(b"a"), 0xe8b7_be43);
    assert_eq!(checksum(b"123456789"), 0xcbf4_3926);
    assert_eq!(checksum(b"The quick brown fox jumps over the lazy dog"), 0x414f_a339);
}

#[test]
fn integers_are_written_lowest_byte_first() {
    let mut out = Vec::new();
    append_le16(&mut out, 0x1234);
    append_le32(&mut out, 0x89ab_cdef);
    append_le16(&mut out, 0x1_0002);
    append_le32(&mut out, 0x1_0000_0003);
    assert_eq!(out, vec![0x34, 0x12, 0xef, 0xcd, 0xab, 0x89, 0x02, 0x00, 0x03, 0, 0, 0]);
}

#[test]
fn local_record_layout() {
    let mut out = vec![0xaa];
    append_local_record(&mut out, b"a.xml", 0x0102_0304, 300, &[9, 8, 7]);
    assert_eq!(
        out,
        vec![
            0xaa, 0x50, 0x4b, 0x03, 0x04, 20, 0, 0, 0, 8, 0, 0, 0, 33, 0, 0x04, 0x03, 0x02,
            0x01, 3, 0, 0, 0, 0x2c, 0x01, 0, 0, 5, 0, 0, 0, b'a', b'.', b'x', b'm', b'l', 9, 8,
            7,
        ]
    );
}

#[test]
fn central_record_layout() {
    let mut out = Vec::new();
    append_central_record(&mut out, b"b", 0xffff_fffe, 2, 1, 0x0001_0000);
    assert_eq!(
        out,
        vec![
            0x50, 0x4b, 0x01, 0x02, 20, 0, 20, 0, 0, 0, 8, 0, 0, 0, 33, 0, 0xfe, 0xff, 0xff,
            0xff, 1, 0, 0, 0, 2, 0, 0, 0, 1, 0, 0, 0, 0, 0, 0, 0, 0, 0, 0, 0, 0, 0, 0, 0, 1,
            0, b'b',
        ]
    );
}

#[test]
fn end_record_layout() {
    let mut out = Vec::new();
    append_end_record(&mut out, 3, 0x0102, 0x0a0b_0c0d);
    assert_eq!(
        out,
        vec![
            0x50, 0x4b, 0x05, 0x06, 0, 0, 0, 0, 3, 0, 3, 0, 0x02, 0x01, 0, 0, 0x0d, 0x0c, 0x0b,
            0x0a, 0, 0,
        ]
    );
}

#[test]
fn an_archive_reads_back_as_its_parts() {
    let text: Vec<u8> = b"<row><c>spreadsheet</c></row>".iter().cycle().take(5000).cloned().collect();
    let parts = vec![
        Part { name: b"[Content_Types].xml".to_vec(), data: b"<Types/>".to_vec() },
        Part { name: b"xl/empty.xml".to_vec(), data: Vec::new() },
        Part { name: b"xl/worksheets/sheet1.xml".to_vec(), data: text.clone() },
    ];
    let archive = write_archive(&parts).unwrap();
    assert_eq!(&archive[0..4], &[0x50, 0x4b, 0x03, 0x04]);
    assert!(archive.len() < text.len());
    let entries = read_back(&archive);
    assert_eq!(
        entries,
        vec![
            (b"[Content_Types].xml".to_vec(), b"<Types/>".to_vec()),
            (b"xl/empty.xml".to_vec(), Vec::new()),
            (b"xl/worksheets/sheet1.xml".to_vec(), text),
        ]
    );
    assert_eq!(write_archive(&parts).unwrap(), archive);
}

#[test]
fn an_archive_without_parts_is_its_end_record() {
    assert_eq!(
        write_archive(&Vec::new()).unwrap(),
        vec![0x50, 0x4b, 0x05, 0x06, 0, 0, 0, 0, 0, 0, 0, 0, 0, 0, 0, 0, 0, 0, 0, 0, 0, 0]
    );
}

#[test]
fn what_the_format_cannot_hold_is_an_io_error() {
    let long = Part { name: vec![b'n'; 65_536], data: b"x".to_vec() };
    assert_eq!(write_archive(&vec![long]), Err(XlsxError::IoError));
    let longest = Part { name: vec![b'n'; 65_535], data: b"x".to_vec() };
    assert!(write_archive(&vec![longest]).is_ok());
    let many: Vec<Part> = (0..65_536)
        .map(|i| Part { name: format!("{}", i).into_bytes(), data: Vec::new() })
        .collect();
    assert_eq!(write_archive(&many), Err(XlsxError::IoError));
}

#[test]
fn a_closed_workbook_packs_into_an_archive() {
    let mut workbook = Workbook::new();
    let sheet = workbook.add_worksheet(None).unwrap();
    for i in 0..5 {
        workbook.write_number(sheet, i, 0, Number::from_int(i * 10)).unwrap();
    }
    workbook.write_string(sheet, 0, 1, "total").unwrap();
    let chart = workbook.add_chart(ChartKind::Column).unwrap();
    workbook.add_series(chart, None, Some("=Sheet1!$A$1:$A$5")).unwrap();
    workbook.insert_chart(sheet, 1, 3, chart).unwrap();
    let parts = workbook.close().unwrap();
    let archive = write_archive(&parts).unwrap();
    let entries = read_back(&archive);
    assert_eq!(entries.len(), parts.len());
    for (entry, part) in entries.iter().zip(parts.iter()) {
        assert_eq!(entry.0, part.name);
        assert_eq!(entry.1, part.data);
    }
    assert_eq!(entries[0].0, b"[Content_Types].xml".to_vec());
}
