//! Simulated disk drives: a fixed catalogue of drive profiles, each with a
//! throughput value (IOPS) that scales operation pacing, selectable by
//! letter or index with drive C as the default.

use vstd::prelude::*;

verus! {

/// A disk drive configuration: letter, informational capacity and cluster
/// count, and the IOPS throughput that drives pacing.
#[derive(Debug, Clone, Copy, PartialEq, Eq, Structural)]
pub struct DriveConfig {
    pub letter: char,
    pub capacity_mb: u32,
    pub cluster_count: u32,
    pub iops: u32,
}

/// Drive C: standard hard disk (slower, 2 IOPS); the default drive.
pub open spec fn spec_drive_c() -> DriveConfig {
    DriveConfig { letter: 'C', capacity_mb: 2048, cluster_count: 4096, iops: 2 }
}

/// Drive D: medium hard disk (3 IOPS).
pub open spec fn spec_drive_d() -> DriveConfig {
    DriveConfig { letter: 'D', capacity_mb: 1024, cluster_count: 2048, iops: 3 }
}

/// Drive E: slow disk/floppy (1 IOPS, slowest).
pub open spec fn spec_drive_e() -> DriveConfig {
    DriveConfig { letter: 'E', capacity_mb: 512, cluster_count: 1024, iops: 1 }
}

/// Drive F: fast SSHD/SSD hybrid (8 IOPS, fastest).
pub open spec fn spec_drive_f() -> DriveConfig {
    DriveConfig { letter: 'F', capacity_mb: 2048, cluster_count: 4096, iops: 8 }
}

/// The full catalogue, in selection order.
pub open spec fn spec_all_drives() -> Seq<DriveConfig> {
    seq![spec_drive_c(), spec_drive_d(), spec_drive_e(), spec_drive_f()]
}

/// The catalogue entry for `letter`, if any.
pub open spec fn spec_drive_by_letter(letter: char) -> Option<DriveConfig> {
    if letter == 'C' {
        Some(spec_drive_c())
    } else if letter == 'D' {
        Some(spec_drive_d())
    } else if letter == 'E' {
        Some(spec_drive_e())
    } else if letter == 'F' {
        Some(spec_drive_f())
    } else {
        None
    }
}

/// Build drive C's configuration.
pub fn drive_c() -> (r: DriveConfig)
    ensures
        r == spec_drive_c(),
{
    DriveConfig { letter: 'C', capacity_mb: 2048, cluster_count: 4096, iops: 2 }
}

/// Build drive D's configuration.
pub fn drive_d() -> (r: DriveConfig)
    ensures
        r == spec_drive_d(),
{
    DriveConfig { letter: 'D', capacity_mb: 1024, cluster_count: 2048, iops: 3 }
}

/// Build drive E's configuration.
pub fn drive_e() -> (r: DriveConfig)
    ensures
        r == spec_drive_e(),
{
    DriveConfig { letter: 'E', capacity_mb: 512, cluster_count: 1024, iops: 1 }
}

/// Build drive F's configuration.
pub fn drive_f() -> (r: DriveConfig)
    ensures
        r == spec_drive_f(),
{
    DriveConfig { letter: 'F', capacity_mb: 2048, cluster_count: 4096, iops: 8 }
}

/// Build the full catalogue, in selection order.
pub fn all_drives() -> (r: Vec<DriveConfig>)
    ensures
        r@ == spec_all_drives(),
{
    let mut v: Vec<DriveConfig> = Vec::new();
    v.push(drive_c());
    v.push(drive_d());
    v.push(drive_e());
    v.push(drive_f());
    proof {
        assert(v@ =~= spec_all_drives());
    }
    v
}

/// Get a drive configuration by letter.
pub fn get_drive_by_letter(letter: char) -> (r: Option<DriveConfig>)
    ensures
        r == spec_drive_by_letter(letter),
{
    if letter == 'C' {
        Some(drive_c())
    } else if letter == 'D' {
        Some(drive_d())
    } else if letter == 'E' {
        Some(drive_e())
    } else if letter == 'F' {
        Some(drive_f())
    } else {
        None
    }
}

/// Get a drive configuration by catalogue index.
pub fn get_drive_by_index(index: usize) -> (r: Option<DriveConfig>)
    ensures
        r == (if index < spec_all_drives().len() {
            Some(spec_all_drives()[index as int])
        } else {
            None::<DriveConfig>
        }),
{
    if index == 0 {
        Some(drive_c())
    } else if index == 1 {
        Some(drive_d())
    } else if index == 2 {
        Some(drive_e())
    } else if index == 3 {
        Some(drive_f())
    } else {
        None
    }
}

/// The display name that belongs to a drive letter.
pub open spec fn spec_drive_name(letter: char) -> Seq<char> {
    if letter == 'C' {
        "Hard Disk (2GB, 2 IOPS)"@
    } else if letter == 'D' {
        "Hard Disk (1GB, 3 IOPS)"@
    } else if letter == 'E' {
        "Floppy Disk (512MB, 1 IOPS)"@
    } else if letter == 'F' {
        "SSHD (2GB, 8 IOPS)"@
    } else {
        "Unknown Drive"@
    }
}

/// A disk drive instance: a configuration together with a display name
/// derived from its letter.
#[derive(Debug, Clone)]
pub struct DiskDrive {
    pub config: DriveConfig,
    pub name: String,
}

impl DiskDrive {
    /// A drive instance is well formed when its name matches its letter.
    pub open spec fn wf(&self) -> bool {
        self.name@ == spec_drive_name(self.config.letter)
    }

    /// Create a disk drive instance from a configuration.
    pub fn from_config(config: DriveConfig) -> (r: Self)
        ensures
            r.config == config,
            r.wf(),
    {
        let name: &str = if config.letter == 'C' {
            "Hard Disk (2GB, 2 IOPS)"
        } else if config.letter == 'D' {
            "Hard Disk (1GB, 3 IOPS)"
        } else if config.letter == 'E' {
            "Floppy Disk (512MB, 1 IOPS)"
        } else if config.letter == 'F' {
            "SSHD (2GB, 8 IOPS)"
        } else {
            "Unknown Drive"
        };
        DiskDrive { config, name: name.to_owned() }
    }

    /// The IOPS value of this drive.
    pub fn iops(&self) -> (r: u32)
        ensures
            r == self.config.iops,
    {
        self.config.iops
    }

    /// The drive letter.
    pub fn letter(&self) -> (r: char)
        ensures
            r == self.config.letter,
    {
        self.config.letter
    }
}

/// The collection of drives available for selection.
#[derive(Debug, Clone)]
pub struct DiskDriveCollection {
    drives: Vec<DiskDrive>,
}

impl DiskDriveCollection {
    /// The drive instances held, in catalogue order.
    pub closed spec fn spec_drives(&self) -> Seq<DiskDrive> {
        self.drives@
    }

    /// The collection holds one well-formed instance per catalogue entry,
    /// in catalogue order.
    pub open spec fn wf(&self) -> bool {
        &&& self.spec_drives().len() == spec_all_drives().len()
        &&& forall|k: int|
            0 <= k < self.spec_drives().len() ==> (#[trigger] self.spec_drives()[k]).config
                == spec_all_drives()[k] && self.spec_drives()[k].wf()
    }

    /// Create the default collection of disk drives from the catalogue.
    pub fn new() -> (r: Self)
        ensures
            r.wf(),
    {
        let configs = all_drives();
        let mut drives: Vec<DiskDrive> = Vec::new();
        let mut i: usize = 0;
        while i < configs.len()
            invariant
                i <= configs.len(),
                configs@ == spec_all_drives(),
                drives@.len() == i,
                forall|k: int|
                    0 <= k < i ==> (#[trigger] drives@[k]).config == spec_all_drives()[k]
                        && drives@[k].wf(),
            decreases configs.len() - i,
        {
            drives.push(DiskDrive::from_config(configs[i]));
            i += 1;
        }
        DiskDriveCollection { drives }
    }

    /// All available drives.
    pub fn get_all(&self) -> (r: &Vec<DiskDrive>)
        ensures
            r@ == self.spec_drives(),
    {
        &self.drives
    }

    /// The drive with the given letter, if the catalogue has one.
    pub fn get_by_letter(&self, letter: char) -> (r: Option<&DiskDrive>)
        requires
            self.wf(),
        ensures
            match r {
                Some(d) => d.config == spec_drive_by_letter(letter)->Some_0 && d.wf()
                    && spec_drive_by_letter(letter) is Some,
                None => spec_drive_by_letter(letter) is None,
            },
    {
        let n = self.drives.len();
        let mut i: usize = 0;
        while i < n
            invariant
                i <= n,
                self.wf(),
                n == self.spec_drives().len(),
                forall|k: int| 0 <= k < i ==> (#[trigger] self.spec_drives()[k]).config.letter
                    != letter,
            decreases n - i,
        {
            if self.drives[i].letter() == letter {
                return Some(&self.drives[i]);
            }
            i += 1;
        }
        proof {
            if spec_drive_by_letter(letter) is Some {
                let c = spec_drive_by_letter(letter)->Some_0;
                if letter == 'C' {
                    assert(self.spec_drives()[0].config.letter == letter);
                } else if letter == 'D' {
                    assert(self.spec_drives()[1].config.letter == letter);
                } else if letter == 'E' {
                    assert(self.spec_drives()[2].config.letter == letter);
                } else {
                    assert(self.spec_drives()[3].config.letter == letter);
                }
            }
        }
        None
    }

    /// The drive at the given catalogue index, if in range.
    pub fn get_by_index(&self, index: usize) -> (r: Option<&DiskDrive>)
        ensures
            match r {
                Some(d) => index < self.spec_drives().len() && *d == self.spec_drives()[index as int],
                None => index >= self.spec_drives().len(),
            },
    {
        if index < self.drives.len() {
            Some(&self.drives[index])
        } else {
            None
        }
    }

    /// The default drive (drive C).
    pub fn get_default(&self) -> (r: &DiskDrive)
        requires
            self.wf(),
        ensures
            r.config == spec_drive_c(),
            r.wf(),
    {
        &self.drives[0]
    }
}

} // verus!
