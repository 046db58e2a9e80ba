use qedl::image::error::ImageError;
use qedl::image::patch::{PatchEntry, PatchSet};
use qedl::image::rawprogram::{TaskList, TaskType};
use qedl::image::sparse::{
    expand_to_vec, sparse_expansion_ends, ChunkHeader, ChunkType, SparseExpander, SparseHeader,
};

fn header(blk: u32, chunk_hdr: u16) -> Vec<u8> {
    let mut h = Vec::new();
    h.extend_from_slice(&0xED26FF3Au32.to_le_bytes());
    h.extend_from_slice(&1u16.to_le_bytes());
    h.extend_from_slice(&0u16.to_le_bytes());
    h.extend_from_slice(&28u16.to_le_bytes());
    h.extend_from_slice(&chunk_hdr.to_le_bytes());
    h.extend_from_slice(&blk.to_le_bytes());
    h.extend_from_slice(&10u32.to_le_bytes());
    h.extend_from_slice(&4u32.to_le_bytes());
    h.extend_from_slice(&0u32.to_le_bytes());
    h
}

fn chunk(kind: u16, size: u32) -> Vec<u8> {
    let mut c = Vec::new();
    c.extend_from_slice(&kind.to_le_bytes());
    c.extend_from_slice(&[0, 0]);
    c.extend_from_slice(&size.to_le_bytes());
    c.extend_from_slice(&0u32.to_le_bytes());
    c
}

#[test]
fn sparse_header_fields() {
    let h = header(8, 12);
    assert!(SparseHeader::is_sparse(&h));
    let p = SparseHeader::from_bytes(&h).unwrap();
    assert_eq!(p.blk_sz, 8);
    assert_eq!(p.total_blks, 10);
    assert_eq!(p.chunk_hdr_sz, 12);
    let e = SparseExpander::new(&h).unwrap();
    assert_eq!(e.raw_size(), 80);
    assert_eq!(e.header().file_hdr_sz, 28);
}

#[test]
fn sparse_header_errors() {
    match SparseHeader::from_bytes(&[0u8; 10]) {
        Err(ImageError::SparseFailed { reason }) => assert_eq!(reason, "header too short"),
        other => panic!("unexpected {:?}", other),
    }
    let mut h = header(8, 12);
    h[0] = 0x3B;
    match SparseHeader::from_bytes(&h) {
        Err(ImageError::SparseFailed { reason }) => assert_eq!(reason, "invalid magic: 0xED26FF3B"),
        other => panic!("unexpected {:?}", other),
    }
    assert!(!SparseHeader::is_sparse(&[1, 2]));
}

#[test]
fn chunk_headers() {
    let c = ChunkHeader::from_bytes(&chunk(0xCAC2, 16)).unwrap();
    assert_eq!(c.chunk_type, ChunkType::Fill);
    assert_eq!(c.chunk_data_sz, 16);
    match ChunkHeader::from_bytes(&chunk(0x1234, 0)) {
        Err(ImageError::SparseFailed { reason }) => assert_eq!(reason, "unknown chunk type: 0x1234"),
        other => panic!("unexpected {:?}", other),
    }
    assert_eq!(ChunkType::from_u16(0xCAC4), Some(ChunkType::Crc32));
    assert_eq!(ChunkType::from_u16(0xCAC5), None);
    assert_eq!(ChunkType::DontCare.as_u16(), 0xCAC3);
}

#[test]
fn sparse_expands_each_chunk_kind() {
    let mut img = header(8, 12);
    img.extend(chunk(0xCAC1, 3));
    img.extend([1, 2, 3]);
    img.extend(chunk(0xCAC2, 8));
    img.extend([0xAA, 0xBB, 0xCC, 0xDD]);
    img.extend(chunk(0xCAC3, 5));
    img.extend(chunk(0xCAC4, 4));
    img.extend([9, 9, 9, 9]);
    assert!(sparse_expansion_ends(&img));
    let out = expand_to_vec(&img).unwrap();
    let mut expect = vec![1, 2, 3];
    for _ in 0..4 {
        expect.extend([0xAA, 0xBB, 0xCC, 0xDD]);
    }
    expect.extend([0u8; 5]);
    assert_eq!(out, expect);
}

#[test]
fn sparse_fill_block_tail_is_zero() {
    let mut img = header(6, 12);
    img.extend(chunk(0xCAC2, 4));
    img.extend([1, 2, 3, 4]);
    assert_eq!(expand_to_vec(&img).unwrap(), vec![1, 2, 3, 4, 0, 0]);
}

#[test]
fn sparse_truncated_raw_chunk_fails() {
    let mut img = header(8, 12);
    img.extend(chunk(0xCAC1, 10));
    img.extend([1, 2]);
    match expand_to_vec(&img) {
        Err(ImageError::SparseFailed { reason }) => {
            assert_eq!(reason, "failed to read raw chunk: failed to fill whole buffer")
        }
        other => panic!("unexpected {:?}", other),
    }
}

#[test]
fn sparse_zero_block_size_never_ends() {
    let mut img = header(0, 12);
    img.extend(chunk(0xCAC3, 5));
    assert!(!sparse_expansion_ends(&img));
}

fn entry(value: &str, size: u32) -> PatchEntry {
    PatchEntry {
        byte_offset: 0,
        filename: "DISK".to_string(),
        physical_partition: 0,
        size_in_bytes: size,
        start_sector: 1,
        value: value.to_string(),
    }
}

#[test]
fn patch_values_resolve() {
    let vars = vec![("NUM_DISK_SECTORS".to_string(), "1000".to_string())];
    assert_eq!(entry("NUM_DISK_SECTORS-34.", 4).resolve_value(&vars).unwrap(), vec![0xE8, 0x03, 0, 0]);
    assert_eq!(entry("0x10", 2).resolve_value(&vars).unwrap(), vec![0x10, 0]);
    assert_eq!(entry("258", 8).resolve_value(&vars).unwrap(), vec![2, 1, 0, 0, 0, 0, 0, 0]);
    match entry("LAST_PARTITION_END", 8).resolve_value(&vars) {
        Err(ImageError::ParseFailed { path, reason }) => {
            assert_eq!(path, "DISK");
            assert_eq!(reason, "LAST_PARTITION_END not set");
        }
        other => panic!("unexpected {:?}", other),
    }
    match entry("xyz", 8).resolve_value(&vars) {
        Err(ImageError::ParseFailed { reason, .. }) => assert_eq!(reason, "invalid patch value: xyz"),
        other => panic!("unexpected {:?}", other),
    }
}

#[test]
fn patch_files_parse() {
    let xml = r#"<patches><patch byte_offset="16" filename="DISK" physical_partition_number="0" size_in_bytes="4" start_sector="1" value="0" /><patch filename="x" /></patches>"#;
    let set = PatchSet::from_str(xml, "patch0.xml").unwrap();
    assert_eq!(set.entries.len(), 1);
    assert_eq!(set.entries[0].byte_offset, 16);
    assert_eq!(set.source_file, "patch0.xml");
    assert!(PatchSet::new("p".to_string()).entries.is_empty());
    match PatchSet::from_str("<a></b>", "p.xml") {
        Err(ImageError::ParseFailed { path, reason }) => {
            assert_eq!(path, "p.xml");
            assert!(reason.starts_with("XML parse error: "));
        }
        other => panic!("unexpected {:?}", other),
    }
}

#[test]
fn task_lists_parse() {
    let xml = r#"<data>
      <program SECTOR_SIZE_IN_BYTES="4096" start_sector="6" num_partition_sectors="10" physical_partition_number="0" filename="boot.img" label="boot" sparse="true" />
      <erase SECTOR_SIZE_IN_BYTES="4096" start_sector="20" num_partition_sectors="5" physical_partition_number="1" />
      <program start_sector="1" />
    </data>"#;
    let list = TaskList::from_str(xml, "rawprogram0.xml").unwrap();
    assert_eq!(list.len(), 2);
    assert!(!list.is_empty());
    assert_eq!(list.entries[0].task_type, TaskType::Program);
    assert!(list.entries[0].sparse);
    assert_eq!(list.entries[0].filename.as_deref(), Some("boot.img"));
    assert_eq!(list.entries[1].task_type, TaskType::Erase);
    assert_eq!(list.entries[1].filename, None);
    assert!(list.entries[0].image_path("img").unwrap().ends_with("boot.img"));
    assert!(list.entries[1].image_path("img").is_none());
    let erase_only = TaskList::from_str(&xml.replace("filename=\"boot.img\"", ""), "r").unwrap();
    assert!(erase_only.validate_files("/nonexistent", &vec![false; erase_only.len()]).is_ok());
    match list.validate_files("/nonexistent", &vec![false, false]) {
        Err(ImageError::FileNotFound { expected }) => assert!(expected.ends_with("boot.img")),
        other => panic!("unexpected {:?}", other),
    }
    assert!(list.validate_files("/nonexistent", &vec![true, false]).is_ok());
    assert!(TaskList::new("x".to_string()).is_empty());
}
