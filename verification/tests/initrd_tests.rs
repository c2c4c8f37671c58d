use rust_os::initrd::{USTAR, USTARFileType, USTARHeader};

/// Builds one 512-byte ustar header block.
fn header_block(name: &str, size: u64, typeflag: u8) -> Vec<u8> {
    let mut block = vec![0u8; 512];
    block[..name.len()].copy_from_slice(name.as_bytes());
    let octal = format!("{:011o}", size);
    block[124..135].copy_from_slice(octal.as_bytes());
    block[156] = typeflag;
    block[257..263].copy_from_slice(&[117, 115, 116, 97, 114, 0]);
    block
}

/// Pads `data` to whole 512-byte blocks.
fn content_blocks(data: &[u8]) -> Vec<u8> {
    let mut out = data.to_vec();
    while out.len() % 512 != 0 {
        out.push(0);
    }
    out
}

#[test]
fn parses_a_header_and_opens_the_file() {
    let mut buf = header_block("./hello", 5, b'0');
    buf.extend(content_blocks(b"world"));
    let archive = USTAR::new(buf);

    assert_eq!(archive.len(), 1);
    let entries = archive.entries();
    assert_eq!(entries[0].name, b"/hello".to_vec());
    assert_eq!(entries[0].size, 5);
    assert_eq!(entries[0].typeflag, USTARFileType::REGTYPE);
    assert_eq!(entries[0].offset, 0);

    assert_eq!(archive.open(b"/hello"), Some(b"world".to_vec()));
    assert_eq!(archive.open(b"/nope"), None);
}

#[test]
fn file_contents_are_skipped_not_parsed() {
    // the first file spans two content blocks and contains bytes that
    // would look like a header if the scan peeked inside it
    let mut inner = vec![0u8; 600];
    let fake = header_block("./fake", 1, b'0');
    inner[..512].copy_from_slice(&fake);
    let mut buf = header_block("./big", 600, b'0');
    buf.extend(content_blocks(&inner));
    buf.extend(header_block("./after", 0, b'0'));

    let archive = USTAR::new(buf);
    assert_eq!(archive.len(), 2);
    let entries = archive.entries();
    assert_eq!(entries[0].name, b"/big".to_vec());
    assert_eq!(entries[1].name, b"/after".to_vec());
    assert_eq!(entries[1].offset, 3 * 512);
    assert_eq!(archive.open(b"/fake"), None);
}

#[test]
fn directories_are_not_skipped_over() {
    let mut buf = header_block("./dir", 0, b'5');
    buf.extend(header_block("./dir/file", 2, b'0'));
    buf.extend(content_blocks(b"ok"));
    let archive = USTAR::new(buf);
    assert_eq!(archive.len(), 2);
    assert_eq!(archive.entries()[0].typeflag, USTARFileType::DIRTYPE);
    assert_eq!(archive.open(b"/dir/file"), Some(b"ok".to_vec()));
}

#[test]
fn later_header_with_same_name_replaces_earlier() {
    let mut buf = header_block("./twice", 3, b'0');
    buf.extend(content_blocks(b"one"));
    buf.extend(header_block("./twice", 5, b'0'));
    buf.extend(content_blocks(b"again"));
    let archive = USTAR::new(buf);
    assert_eq!(archive.len(), 1);
    assert_eq!(archive.entries()[0].size, 5);
    assert_eq!(archive.open(b"/twice"), Some(b"again".to_vec()));
}

#[test]
fn from_block_reads_octal_sizes() {
    let block = header_block("./n", 0o11, b'0');
    let header = USTARHeader::from_block(&block, 3).unwrap();
    assert_eq!(header.size, 9);
    assert_eq!(header.offset, 3 * 512);
}

#[test]
fn from_block_rejects_bad_magic_and_bad_size() {
    let mut no_magic = header_block("./x", 1, b'0');
    no_magic[257] = 0;
    assert_eq!(
        USTARHeader::from_block(&no_magic, 0).unwrap_err(),
        "format is not USTAR!"
    );

    let mut bad_size = header_block("./x", 1, b'0');
    bad_size[130] = b'x';
    assert_eq!(
        USTARHeader::from_block(&bad_size, 0).unwrap_err(),
        "size field is not octal"
    );
}

#[test]
fn name_is_trimmed_of_padding_and_leading_dots() {
    let block = header_block("..deep", 0, b'0');
    let header = USTARHeader::from_block(&block, 0).unwrap();
    assert_eq!(header.name, b"deep".to_vec());
}

#[test]
fn lookup_key_also_trims_trailing_dots() {
    // stored name keeps its trailing dot, but the lookup key loses it
    let mut buf = header_block("./tail.", 2, b'0');
    buf.extend(content_blocks(b"hi"));
    let archive = USTAR::new(buf);
    assert_eq!(archive.entries()[0].name, b"/tail.".to_vec());
    assert_eq!(archive.open(b"/tail"), Some(b"hi".to_vec()));
    assert_eq!(archive.open(b"/tail."), None);
}

#[test]
fn truncated_size_past_blob_end_yields_none() {
    // header announces more bytes than the archive holds
    let buf = header_block("./cut", 4096, b'0');
    let archive = USTAR::new(buf);
    assert_eq!(archive.len(), 1);
    assert_eq!(archive.open(b"/cut"), None);
}

#[test]
fn blocks_without_magic_are_ignored() {
    let mut buf = vec![0u8; 512];
    buf.extend(header_block("./real", 0, b'0'));
    let archive = USTAR::new(buf);
    assert_eq!(archive.len(), 1);
    assert_eq!(archive.entries()[0].offset, 512);
}

#[test]
fn type_flags_decode() {
    assert_eq!(USTARFileType::from_char('0'), USTARFileType::REGTYPE);
    assert_eq!(USTARFileType::from_char('\0'), USTARFileType::AREGTYPE);
    assert_eq!(USTARFileType::from_char('1'), USTARFileType::LNKTYPE);
    assert_eq!(USTARFileType::from_char('2'), USTARFileType::SYMTYPE);
    assert_eq!(USTARFileType::from_char('3'), USTARFileType::CHRTYPE);
    assert_eq!(USTARFileType::from_char('4'), USTARFileType::BLKTYPE);
    assert_eq!(USTARFileType::from_char('5'), USTARFileType::DIRTYPE);
    assert_eq!(USTARFileType::from_char('6'), USTARFileType::FIFOTYPE);
    assert_eq!(USTARFileType::from_char('7'), USTARFileType::CONTTYPE);
    assert_eq!(USTARFileType::from_char('z'), USTARFileType::REGTYPE);
}

#[test]
fn header_duplicate_copies_every_field() {
    let block = header_block("./copy", 7, b'5');
    let header = USTARHeader::from_block(&block, 2).unwrap();
    let copy = header.duplicate();
    assert_eq!(copy.name, header.name);
    assert_eq!(copy.size, header.size);
    assert_eq!(copy.typeflag, header.typeflag);
    assert_eq!(copy.offset, header.offset);
}
