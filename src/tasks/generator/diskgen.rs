//! Disk use: the used share of each watched mount point, in the order the
//! system lists its disks, with "xx" for each watched one not found.

use vstd::prelude::*;
use crate::text::{clamp_i32, i64_to_string, percent, percent_i32, signed_decimal, split_char, split_on, str_eq};
use crate::dzen_format::{sp_add, sp_add_not_empty, sp_new_section, BuilderView};
use crate::dzen_format::utils::sp_color_step;
use crate::tasks::ExitReason;
use crate::tasks::generator::{arg_builder, delay_of, GenArg};

verus! {

/// One disk as the system reports it.
pub struct DiskInfo {
    pub fs: String,
    pub mount: String,
    pub total: u64,
    pub avail: u64,
}

pub struct DiskInfoView {
    pub fs: Seq<char>,
    pub mount: Seq<char>,
    pub total: u64,
    pub avail: u64,
}

impl View for DiskInfo {
    type V = DiskInfoView;

    open spec fn view(&self) -> DiskInfoView {
        DiskInfoView { fs: self.fs@, mount: self.mount@, total: self.total, avail: self.avail }
    }
}

pub open spec fn infos_view(v: Seq<DiskInfo>) -> Seq<DiskInfoView> {
    v.map_values(|d: DiskInfo| d@)
}

/// Thresholds at which use turns yellow, then red.
pub open spec fn disk_levels() -> Seq<(i32, Seq<char>)> {
    seq![(90i32, "yellow"@), (95i32, "red"@)]
}

/// A disk is shown when its file system is nfs or ext4 and it is mounted
/// at a watched mount point.
pub open spec fn disk_shown(d: DiskInfoView, disks: Seq<Seq<char>>) -> bool {
    (d.fs == "nfs"@ || d.fs == "ext4"@) && disks.contains(d.mount)
}

/// The used share of a disk in rounded percent.
pub open spec fn disk_percent(d: DiskInfoView) -> i32 {
    clamp_i32(percent((if d.avail <= d.total { d.total - d.avail } else { 0 }) as nat, d.total as nat))
}

/// The builder after the shown disks among `infos`, and how many were shown.
pub open spec fn disk_fold(base: BuilderView, infos: Seq<DiskInfoView>, disks: Seq<Seq<char>>) -> (BuilderView, nat)
    decreases infos.len(),
{
    if infos.len() == 0 {
        (base, 0)
    } else {
        let (b, n) = disk_fold(base, infos.drop_last(), disks);
        let d = infos.last();
        if disk_shown(d, disks) {
            let p = disk_percent(d);
            (sp_color_step(sp_add(sp_new_section(sp_add_not_empty(b, "/"@)), signed_decimal(p as int)), p, disk_levels()), n + 1)
        } else {
            (b, n)
        }
    }
}

/// `k` placeholders "xx".
pub open spec fn missing_fold(b: BuilderView, k: nat) -> BuilderView
    decreases k,
{
    if k == 0 {
        b
    } else {
        sp_add(sp_new_section(sp_add_not_empty(missing_fold(b, (k - 1) as nat), "/"@)), "xx"@)
    }
}

pub open spec fn disk_view(base: BuilderView, infos: Seq<DiskInfoView>, disks: Seq<Seq<char>>) -> BuilderView {
    let (b, n) = disk_fold(sp_new_section(base), infos, disks);
    missing_fold(b, if n <= disks.len() { (disks.len() - n) as nat } else { 0 })
}

/// A disk use generator: the watched mount points.
pub struct DiskGen {
    pub disks: Vec<String>,
}

pub open spec fn names_view(v: Seq<String>) -> Seq<Seq<char>> {
    v.map_values(|s: String| s@)
}

fn has_mount(disks: &Vec<String>, m: &str) -> (r: bool)
    ensures
        r == names_view(disks@).contains(m@),
{
    let mut i: usize = 0;
    while i < disks.len()
        invariant
            i <= disks@.len(),
            forall|k: int| 0 <= k < i ==> disks@[k]@ != m@,
        decreases disks.len() - i,
    {
        if str_eq(disks[i].as_str(), m) {
            assert(names_view(disks@)[i as int] == m@);
            return true;
        }
        i += 1;
    }
    assert forall|k: int| 0 <= k < names_view(disks@).len() implies names_view(disks@)[k] != m@ by {
        assert(names_view(disks@)[k] == disks@[k]@);
    }
    false
}

impl DiskGen {
    pub fn new() -> (r: Self)
        ensures
            r.disks@.len() == 0,
    {
        DiskGen { disks: Vec::new() }
    }

    /// Takes the comma-separated mount points of the argument; without an
    /// argument there is nothing to watch, a non-fatal error.
    pub fn init(&mut self, arg: &GenArg) -> (r: Result<(), ExitReason>)
        ensures
            match arg@.arg {
                Some(a) => r is Ok && names_view(final(self).disks@) == split_on(a, ','),
                None => r == Err::<(), ExitReason>(ExitReason::NonFatal),
            },
    {
        match &arg.arg {
            Some(a) => {
                self.disks = split_char(a.as_str(), ',');
                Ok(())
            },
            None => Err(ExitReason::NonFatal),
        }
    }

    /// The text for the disks the system lists.
    pub fn display(&self, arg: &GenArg, infos: &Vec<DiskInfo>) -> (r: String)
        ensures
            r@ == disk_view(arg_builder(arg@), infos_view(infos@), names_view(self.disks@)).rendered(),
    {
        let levels = vec![(90i32, "yellow"), (95i32, "red")];
        proof {
            assert(crate::dzen_format::utils::steps_view(levels@) =~= disk_levels());
        }
        let ghost dv = names_view(self.disks@);
        let ghost base = sp_new_section(arg_builder(arg@));
        let mut bu = arg.get_builder().new_section();
        let mut shown: usize = 0;
        let mut i: usize = 0;
        while i < infos.len()
            invariant
                i <= infos@.len(),
                crate::dzen_format::utils::steps_view(levels@) == disk_levels(),
                dv == names_view(self.disks@),
                (bu@, shown as nat) == disk_fold(base, infos_view(infos@).take(i as int), dv),
                shown <= i,
            decreases infos.len() - i,
        {
            let d = &infos[i];
            proof {
                assert(infos_view(infos@).take(i + 1).drop_last() =~= infos_view(infos@).take(i as int));
                assert(infos_view(infos@).take(i + 1).last() == d@);
            }
            let fs_ok = str_eq(d.fs.as_str(), "nfs") || str_eq(d.fs.as_str(), "ext4");
            if fs_ok && has_mount(&self.disks, d.mount.as_str()) {
                let used = if d.avail <= d.total { d.total - d.avail } else { 0 };
                let p = percent_i32(used, d.total);
                bu = bu.add_not_empty("/").new_section().add(i64_to_string(p as i64).as_str()).color_step(p, levels.as_slice());
                shown = shown + 1;
            }
            i += 1;
        }
        assert(infos_view(infos@).take(i as int) =~= infos_view(infos@));
        let n = self.disks.len();
        let missing: usize = if shown <= n { n - shown } else { 0 };
        let ghost folded = bu@;
        let mut k: usize = 0;
        while k < missing
            invariant
                k <= missing,
                bu@ == missing_fold(folded, k as nat),
            decreases missing - k,
        {
            bu = bu.add_not_empty("/").new_section().add("xx");
            k += 1;
        }
        bu.to_string()
    }

    /// A minute unless the argument says otherwise.
    pub fn get_delay(&self, arg: &GenArg) -> (r: u64)
        ensures
            r == delay_of(arg@, 60),
    {
        arg.delay_or(60)
    }
}

} // verus!
