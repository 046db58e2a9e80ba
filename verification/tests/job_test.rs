use qedl::base::protocol::FirehoseInfo;
use qedl::base::session::Session;
use qedl::base::types::{DeviceCapabilities, DeviceInfo, DeviceMode, PartitionInfo};
use qedl::image::rawprogram::{TaskEntry, TaskType};
use qedl::job::error::JobError;
use qedl::job::executor::{connect_step, dry_run_result, edl_identity, execute_gate, lun_count, ConnectStep, ExecutorConfig, ExtraData, ExtraValue, ModeOverride};
use qedl::job::info::{storage_description, JsonScalar};
use qedl::job::jobs::{
    apply_patch, check_fits, compare_digests, patch_vars, patched_sector, plan_chunks, sectors_for, sectors_per_chunk, write_chunk,
    write_sees_sparse, zero_fill_sectors, DumpJob, DumpStart, EraseMethod, FlashJob, FlashStep, GptJob, InfoJob,
    RebootJob, XmlJob, XmlResponse,
};

fn part(name: &str, first: u64, last: u64) -> PartitionInfo {
    PartitionInfo { name: name.to_string(), first_lba: first, last_lba: last, physical_partition: 0 }
}

#[test]
fn chunk_plans_cover_the_range() {
    assert_eq!(plan_chunks(10, 5, 2), vec![(10, 2), (12, 2), (14, 1)]);
    assert!(plan_chunks(0, 0, 4).is_empty());
    assert_eq!(sectors_per_chunk(1048576, 4096), 256);
    assert_eq!(sectors_per_chunk(100, 4096), 1);
    assert_eq!(zero_fill_sectors(1024, 512), 1024);
    assert_eq!(sectors_for(1025, 512), 3);
    assert_eq!(sectors_for(1024, 512), 2);
}

#[test]
fn test_dump_job_resume_full() {
    let job = DumpJob { partition_name: "boot".to_string(), output_path: "b.img".to_string(), show_progress: false, resume: true };
    let p = part("boot", 100, 109);
    match job.start(&p, 512, Some(5120)) {
        DumpStart::AlreadyDumped(r) => {
            assert!(r.success);
            assert_eq!(r.message, "partition boot already dumped");
            assert_eq!(r.steps_completed, 0);
        }
        other => panic!("unexpected {:?}", other),
    }
    match job.start(&p, 512, Some(1100)) {
        DumpStart::From { start_sector, done_bytes } => {
            assert_eq!(start_sector, 102);
            assert_eq!(done_bytes, 1024);
        }
        other => panic!("unexpected {:?}", other),
    }
    assert!(matches!(job.start(&p, 512, None), DumpStart::From { start_sector: 100, done_bytes: 0 }));
    assert_eq!(job.name(), "dump");
}

#[test]
fn write_job_pieces() {
    match check_fits(2_000_000, 1_000_000) {
        Err(JobError::PreconditionFailed { reason }) => assert_eq!(reason, "image too large: 2 MB > partition 1 MB"),
        other => panic!("unexpected {:?}", other),
    }
    assert!(check_fits(1, 1).is_ok());
    assert_eq!(write_chunk(&[1, 2, 3, 4, 5], 1, 2, 2), vec![3, 4, 5, 0]);
    assert!(write_sees_sparse([0x3A, 0xFF, 0x26, 0xED]));
    assert!(!write_sees_sparse([0xED, 0x26, 0xFF, 0x36]));
    assert!(qedl::job::jobs::verify_sees_sparse(&[0x3A, 0xFF, 0x26, 0xED, 0]));
    assert!(!qedl::job::jobs::verify_sees_sparse(&0x52415350u32.to_le_bytes()));
}

#[test]
fn flash_job_pieces() {
    let job = FlashJob { rawprogram: "r.xml".to_string(), patch: None, image_dir: ".".to_string(), erase_method: EraseMethod::default() };
    let task = TaskEntry {
        task_type: TaskType::Program,
        sector_size: 512,
        start_sector: 0,
        num_sectors: 1,
        physical_partition: 0,
        filename: None,
        label: None,
        sparse: false,
        file_sector_offset: 0,
        size_in_kb: 0,
    };
    assert_eq!(job.step_for(&task), FlashStep::Skip);
    let erase = TaskEntry { task_type: TaskType::Erase, ..task.clone() };
    assert_eq!(job.step_for(&erase), FlashStep::EraseZero);
    let vars = patch_vars(&vec![part("a", 34, 99), part("b", 100, 199)], 512);
    assert_eq!(vars[0], ("NUM_DISK_SECTORS".to_string(), "200".to_string()));
    assert_eq!(vars[1], ("LAST_PARTITION_END".to_string(), "102400".to_string()));
    assert_eq!(patch_vars(&vec![], 512)[0].1, "0");
    assert_eq!(apply_patch(&[0, 0, 0, 0], 2, &[7, 8, 9]), vec![0, 0, 7, 8]);
}

#[test]
fn verify_and_xml_results() {
    assert!(compare_digests("ab", "ab").is_ok());
    match compare_digests("ab", "cd") {
        Err(JobError::PreconditionFailed { reason }) => assert_eq!(reason, "SHA256 mismatch: local = ab, device = cd"),
        other => panic!("unexpected {:?}", other),
    }
    let r = XmlJob::result(&XmlResponse { is_ack: false, error: Some("oops".to_string()) });
    assert!(!r.success);
    assert_eq!(r.message, "XML command sent successfully\nError: oops");
    let none = XmlJob { xml: None, file: None };
    match none.inline_xml() {
        Err(JobError::PreconditionFailed { reason }) => assert_eq!(reason, "Either --xml or --file must be specified"),
        other => panic!("unexpected {:?}", other),
    }
    assert_eq!(XmlJob { xml: Some("<x/>".to_string()), file: None }.inline_xml().unwrap(), Some("<x/>".to_string()));
    assert_eq!(RebootJob::result().message, "rebooting device");
}

#[test]
fn test_gpt_job() {
    let r = GptJob::listing(&vec![part("boot\0", 34, 1057)], 512);
    assert_eq!(
        r.message,
        format!("1 partitions:\n  boot{} LBA {}34 - {}1057  524.29 kB  LUN 0\n", " ".repeat(20), " ".repeat(8), " ".repeat(6))
    );
    assert_eq!(GptJob::listing(&vec![], 512).message, "0 partitions:\n");
}

#[test]
fn test_info_job() {
    let r = InfoJob.summary("UFS", 4096, 1000, 3, None, &vec!["Error: x".to_string(), "plain".to_string()]);
    assert_eq!(
        r.message,
        "Storage:       UFS\nSector Size:   4096 bytes\nTotal Sectors: 1000\nCapacity:      4.10 MB\nPartitions:    3\n  plain"
    );
}

#[test]
fn test_info_job_with_storage_logs() {
    let log = r#"{"storage_info": {"mem_type":"ufs","prod_name":"KLUDG","serial_num":255,"total_blocks":10,"block_size":4096,"lun_enable_bitmask":5,"lu_write_protect":1}}"#;
    let r = InfoJob.summary("UFS", 4096, 10, 0, None, &vec![log.to_string()]);
    assert!(r.message.contains("\n\nStorage Device Info:\n  Memory Type:        ufs\n  Product:            KLUDG\n  Serial:             0x000000FF"));
    assert!(r.message.contains("\n  Raw Capacity:       40.96 kB\n  Total Blocks:       10\n  Block Size:         4096 bytes"));
    assert!(r.message.contains("\n\nUFS Configuration:\n  LUN Enable:         0b00000101\n  Write Protect:      Power-on Write Protect"));
    let broken = InfoJob.summary("UFS", 4096, 10, 0, None, &vec!["storage_info: n/a".to_string()]);
    assert!(broken.message.ends_with("\n  storage_info: n/a"));
}

#[test]
fn info_includes_session() {
    let info = DeviceInfo { port: "p".to_string(), serial: None, product: None, pid: 0x9008, vid: 0x05C6, description: None, mode: DeviceMode::Edl };
    let s = Session::new(info, DeviceCapabilities::default(), FirehoseInfo::default())
        .with_msm_hw_id(vec![0xE1, 0x00, 0x5C, 0x00, 0, 0, 0, 0])
        .with_serial_num(0xABC);
    let r = InfoJob.summary("eMMC", 512, 2, 0, Some(&s), &vec![]);
    assert!(r.message.ends_with("\nMSM HW ID:     E1005C0000000000\nSOC HW Ver:    0x005C00E1\nSerial:        0x0000000000000ABC"));
}

#[test]
fn storage_description_for_emmc() {
    let obj = vec![
        ("ext_csd_rev".to_string(), JsonScalar::Num { value: Some(8), text: "8".to_string() }),
        ("mem_type".to_string(), JsonScalar::Str("eMMC".to_string())),
    ];
    let d = storage_description(&obj);
    assert!(d.ends_with("\n\neMMC Configuration:\n  ExtCSD Rev:         8"));
    assert!(d.contains("Raw Capacity:       0 B"));
}

#[test]
fn executor_configuration() {
    let c = ExecutorConfig::builder().port("COM3").max_retries(5).force_mode(ModeOverride::Edl).build();
    assert_eq!(c.port.as_deref(), Some("COM3"));
    assert_eq!(c.max_retries, 5);
    assert_eq!(c.timeout, std::time::Duration::from_secs(45));
    assert!(c.auto_edl_switch);
    let d = DeviceInfo { port: "p".to_string(), serial: None, product: None, pid: 0x90B8, vid: 0x05C6, description: None, mode: DeviceMode::Diag };
    assert_eq!(connect_step(&c, &d).unwrap(), ConnectStep::UseAsEdl);
    let no_switch = ExecutorConfig::builder().auto_edl_switch(false).build();
    assert!(matches!(connect_step(&no_switch, &d), Err(JobError::PreconditionFailed { .. })));
    assert_eq!(connect_step(&ExecutorConfig::default(), &d).unwrap(), ConnectStep::SwitchAndFind);
    let e = edl_identity(&d);
    assert_eq!((e.pid, e.vid, e.mode), (0x9008, 0x05C6, DeviceMode::Edl));
    assert_eq!(lun_count("UFS"), 4);
    assert_eq!(lun_count("eMMC"), 1);
    assert_eq!(dry_run_result().message, "dry-run: parsed successfully");
}

struct Tag;

impl ExtraValue for Tag {}

#[test]
fn executor_config_defaults_and_extras() {
    let c = ExecutorConfig::builder().build();
    assert!(c.port.is_none() && c.serial.is_none() && c.loader.is_none());
    assert_eq!(c.timeout, std::time::Duration::from_millis(45000));
    assert_eq!(c.timeout_secs(), 45);
    assert!(!c.dry_run && !c.verbose);
    assert_eq!(c.max_retries, 3);
    assert!(c.auto_edl_switch);
    assert_eq!(c.force_mode, ModeOverride::Auto);
    assert!(c.extras.is_empty());
    assert!(c.spinner_factory.is_none() && c.progress_factory.is_none() && c.event_sink.is_none());

    let c = ExecutorConfig::builder().port("COM3").loader("prog_firehose.mbn").build();
    assert_eq!(c.port.as_deref(), Some("COM3"));
    assert_eq!(c.loader.as_deref(), Some("prog_firehose.mbn"));
    assert_eq!(c.max_retries, 3);

    let c = ExecutorConfig::builder()
        .extra("a", ExtraData(Box::new(Tag)))
        .extra("b", ExtraData(Box::new(Tag)))
        .extra("a", ExtraData(Box::new(Tag)))
        .timeout(std::time::Duration::from_millis(2500))
        .build();
    let keys: Vec<&str> = c.extras.iter().map(|(k, _)| k.as_str()).collect();
    assert_eq!(keys, vec!["b", "a"]);
    assert_eq!(c.timeout_secs(), 2);
    let copy = c.clone();
    assert!(copy.extras.is_empty());
    assert_eq!(copy.timeout, std::time::Duration::from_millis(2500));
}

#[test]
fn execute_gate_decisions() {
    let r = execute_gate(true, false).unwrap().unwrap();
    assert!(r.success);
    assert_eq!(r.message, "dry-run: parsed successfully");
    assert_eq!(r.steps_completed, 0);
    match execute_gate(false, false) {
        Err(JobError::PreconditionFailed { reason }) => assert_eq!(reason, "transport not initialized"),
        other => panic!("unexpected {:?}", other.is_ok()),
    }
    assert!(execute_gate(false, true).unwrap().is_none());
}

#[test]
fn patched_sector_writes_value_or_skips() {
    let sector = vec![0xAAu8; 8];
    let r: Result<Vec<u8>, String> = Ok(sector.clone());
    assert_eq!(patched_sector(&vec![1, 2], r, 3), Some(vec![0xAA, 0xAA, 0xAA, 1, 2, 0xAA, 0xAA, 0xAA]));
    let r: Result<Vec<u8>, String> = Ok(sector);
    assert_eq!(patched_sector(&vec![1, 2, 3], r, 7), Some(vec![0xAA, 0xAA, 0xAA, 0xAA, 0xAA, 0xAA, 0xAA, 1]));
    let failed: Result<Vec<u8>, String> = Err("read failed".to_string());
    assert_eq!(patched_sector(&vec![1], failed, 0), None);
}
