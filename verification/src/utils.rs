//! The host monitor: what was measured of the machine, and whether that is
//! healthy enough to start a backup on.
use vstd::prelude::*;

verus! {

/// Disks smaller than this many bytes are not monitored: ten GiB.
pub const MONITORED_DISK_SIZE: u64 = 10737418240;

/// One disk of the host, as measured.
#[derive(Clone, Copy, Debug, PartialEq, Eq, Structural)]
pub struct Disk {
    /// Its capacity in bytes.
    pub total: u64,
    /// The bytes that are free.
    pub available: u64,
    /// Whether it can be taken out of the machine.
    pub removable: bool,
}

/// What `disk_info` reports of one monitored disk.
#[derive(Clone, Copy, Debug, PartialEq, Eq, Structural)]
pub struct DiskUsage {
    /// The bytes in use.
    pub used: u64,
    /// The capacity in bytes.
    pub total: u64,
    /// The part in use, in thousandths of the capacity, rounded down.
    pub used_permille: u64,
}

/// One sample of the host.
#[derive(Clone, Debug)]
pub struct Sys {
    /// The disks, in the order in which the host lists them.
    pub disks: Vec<Disk>,
    /// The load average of the last five minutes for each core, in
    /// thousandths, rounded up.
    pub load_per_core: u64,
    /// Memory in use, in bytes.
    pub ram_used: u64,
    /// Memory in all, in bytes.
    pub ram_total: u64,
    /// Seconds since the host started.
    pub uptime: u64,
}

impl Disk {
    /// Whether the disk is monitored: it is built in and holds ten GiB or more.
    pub open spec fn monitored(&self) -> bool {
        !self.removable && self.total >= MONITORED_DISK_SIZE
    }

    /// The bytes in use.
    pub open spec fn used(&self) -> int {
        if self.available <= self.total {
            self.total - self.available
        } else {
            0
        }
    }

    /// Whether more than 85 % of the disk is in use.
    pub open spec fn nearly_full(&self) -> bool {
        self.used() * 100 > 85 * self.total
    }

    fn is_monitored(&self) -> (r: bool)
        ensures
            r == self.monitored(),
    {
        !self.removable && self.total >= MONITORED_DISK_SIZE
    }

    fn used_bytes(&self) -> (r: u64)
        ensures
            r == self.used(),
    {
        if self.available <= self.total {
            self.total - self.available
        } else {
            0
        }
    }

    fn is_nearly_full(&self) -> (r: bool)
        ensures
            r == self.nearly_full(),
    {
        let used: u128 = self.used_bytes() as u128;
        used * 100 > 85 * (self.total as u128)
    }
}

impl Sys {
    /// Whether more than 85 % of the memory is in use.
    pub open spec fn ram_short(&self) -> bool {
        self.ram_used * 100 > 85 * self.ram_total
    }

    /// Whether the load for each core is above 0.8.
    pub open spec fn overloaded(&self) -> bool {
        self.load_per_core > 800
    }

    /// Whether the disk at `i` is monitored and more than 85 % full.
    pub open spec fn disk_low(&self, i: int) -> bool {
        self.disks@[i].monitored() && self.disks@[i].nearly_full()
    }

    /// Whether the host is unhealthy: memory is short, the load is high, or
    /// a monitored disk is nearly full.
    pub open spec fn unhealthy(&self) -> bool {
        self.ram_short() || self.overloaded() || exists|i: int|
            0 <= i < self.disks@.len() && self.disk_low(i)
    }

    /// The first monitored disk that is more than 85 % full, if there is one.
    pub fn check_disk(&self) -> (r: Option<usize>)
        ensures
            match r {
                Some(i) => i < self.disks@.len() && self.disk_low(i as int) && forall|j: int|
                    0 <= j < i ==> !self.disk_low(j),
                None => forall|j: int| 0 <= j < self.disks@.len() ==> !self.disk_low(j),
            },
    {
        let mut i: usize = 0;
        while i < self.disks.len()
            invariant
                i <= self.disks.len(),
                forall|j: int| 0 <= j < i ==> !self.disk_low(j),
            decreases self.disks.len() - i,
        {
            if self.disks[i].is_monitored() && self.disks[i].is_nearly_full() {
                return Some(i);
            }
            i += 1;
        }
        None
    }

    /// The verdict on the host: `true` where it is unhealthy. A backup is not
    /// started on an unhealthy host.
    pub fn sys_health_check(&self) -> (r: bool)
        ensures
            r == self.unhealthy(),
    {
        let used: u128 = self.ram_used as u128;
        let total: u128 = self.ram_total as u128;
        if used * 100 > 85 * total {
            return true;
        }
        if self.load_per_core > 800 {
            return true;
        }
        self.check_disk().is_some()
    }

    /// What is reported of the disks: for each monitored disk, in the order
    /// of the sample, the bytes in use, the capacity and the part in use.
    pub open spec fn usage(&self, n: int) -> Seq<DiskUsage>
        decreases n,
    {
        if n <= 0 {
            Seq::empty()
        } else {
            let before = self.usage(n - 1);
            let disk = self.disks@[n - 1];
            if disk.monitored() {
                before.push(
                    DiskUsage {
                        used: disk.used() as u64,
                        total: disk.total,
                        used_permille: (disk.used() * 1000 / (disk.total as int)) as u64,
                    },
                )
            } else {
                before
            }
        }
    }

    /// Reports the monitored disks.
    pub fn disk_info(&self) -> (out: Vec<DiskUsage>)
        ensures
            out@ == self.usage(self.disks@.len() as int),
    {
        let mut out: Vec<DiskUsage> = Vec::new();
        let mut i: usize = 0;
        while i < self.disks.len()
            invariant
                i <= self.disks.len(),
                out@ == self.usage(i as int),
            decreases self.disks.len() - i,
        {
            let disk = &self.disks[i];
            if disk.is_monitored() {
                let used = disk.used_bytes();
                let permille: u128 = (used as u128) * 1000 / (disk.total as u128);
                assert(permille <= 1000) by (nonlinear_arith)
                    requires
                        permille == (used as int) * 1000 / (disk.total as int),
                        used <= disk.total,
                        disk.total > 0,
                ;
                out.push(DiskUsage { used, total: disk.total, used_permille: permille as u64 });
            }
            i += 1;
        }
        out
    }

    /// Seconds since the host started.
    pub fn uptime(&self) -> (r: u64)
        ensures
            r == self.uptime,
    {
        self.uptime
    }

    /// Memory in use and memory in all, in bytes.
    pub fn get_ram(&self) -> (r: (u64, u64))
        ensures
            r == (self.ram_used, self.ram_total),
    {
        (self.ram_used, self.ram_total)
    }
}

} // verus!
