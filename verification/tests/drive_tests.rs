use defrag_simulator_rs::drive::{
    all_drives, drive_c, drive_d, drive_e, drive_f, get_drive_by_index, get_drive_by_letter,
    DiskDrive, DiskDriveCollection,
};
use defrag_simulator_rs::style::DefragStyle;

#[test]
fn test_drive_lookup() {
    assert_eq!(get_drive_by_letter('C'), Some(drive_c()));
    assert_eq!(get_drive_by_letter('F'), Some(drive_f()));
    assert_eq!(get_drive_by_letter('Z'), None);
}

#[test]
fn drive_lookup_by_index() {
    assert_eq!(get_drive_by_index(0), Some(drive_c()));
    assert_eq!(get_drive_by_index(1), Some(drive_d()));
    assert_eq!(get_drive_by_index(2), Some(drive_e()));
    assert_eq!(get_drive_by_index(3), Some(drive_f()));
    assert_eq!(get_drive_by_index(4), None);
}

#[test]
fn drive_catalogue_values() {
    let ds = all_drives();
    assert_eq!(ds.len(), 4);
    assert_eq!(ds[0].letter, 'C');
    assert_eq!(ds[0].iops, 2);
    assert_eq!(ds[0].capacity_mb, 2048);
    assert_eq!(ds[0].cluster_count, 4096);
    assert_eq!(ds[2].letter, 'E');
    assert_eq!(ds[2].iops, 1);
    assert_eq!(ds[3].iops, 8);
}

#[test]
fn disk_drive_names() {
    let d = DiskDrive::from_config(drive_c());
    assert_eq!(d.name, "Hard Disk (2GB, 2 IOPS)");
    assert_eq!(d.iops(), 2);
    assert_eq!(d.letter(), 'C');
    let e = DiskDrive::from_config(drive_e());
    assert_eq!(e.name, "Floppy Disk (512MB, 1 IOPS)");
}

#[test]
fn drive_collection_access() {
    let coll = DiskDriveCollection::new();
    assert_eq!(coll.get_all().len(), 4);
    assert_eq!(coll.get_default().letter(), 'C');
    assert_eq!(coll.get_by_letter('D').unwrap().iops(), 3);
    assert!(coll.get_by_letter('Q').is_none());
    assert_eq!(coll.get_by_index(3).unwrap().letter(), 'F');
    assert!(coll.get_by_index(9).is_none());
}

#[test]
fn style_names() {
    assert_eq!(DefragStyle::MsDos.name(), "MS-DOS 6.x Defrag");
    assert_eq!(DefragStyle::Windows95.name(), "Windows 95 Defrag");
    assert_eq!(DefragStyle::Windows98.name(), "Windows 98 Defrag");
}
