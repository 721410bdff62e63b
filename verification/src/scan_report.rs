//! Pack scan reports: per-device findings of one scan, the headline
//! counts, and per-algorithm usage statistics.

use vstd::prelude::*;

verus! {

/// The algorithm a device was matched with.
#[derive(Debug, Clone)]
pub struct AlgorithmInfo {
    pub name: String,
    pub flm_file: String,
    pub page_size: u32,
    pub sector_count: usize,
}

pub ghost struct AlgorithmInfoS {
    pub name: Seq<char>,
    pub flm_file: Seq<char>,
    pub page_size: u32,
    pub sector_count: int,
}

impl View for AlgorithmInfo {
    type V = AlgorithmInfoS;

    open spec fn view(&self) -> AlgorithmInfoS {
        AlgorithmInfoS {
            name: self.name@,
            flm_file: self.flm_file@,
            page_size: self.page_size,
            sector_count: self.sector_count as int,
        }
    }
}

/// How a device came out of the scan.
#[derive(Debug, Clone, Copy, PartialEq, Eq, Structural)]
pub enum DeviceStatus {
    Normal,
    Warning,
    Error,
}

/// One device's row in the report.
#[derive(Debug, Clone)]
pub struct DeviceReport {
    pub name: String,
    pub core: String,
    pub flash_start: u64,
    pub flash_size: u64,
    pub ram_start: u64,
    pub ram_size: u64,
    pub algorithm: Option<AlgorithmInfo>,
    pub status: DeviceStatus,
}

pub ghost struct DeviceReportS {
    pub name: Seq<char>,
    pub core: Seq<char>,
    pub flash_start: u64,
    pub flash_size: u64,
    pub ram_start: u64,
    pub ram_size: u64,
    pub algorithm: Option<AlgorithmInfoS>,
    pub status: DeviceStatus,
}

impl View for DeviceReport {
    type V = DeviceReportS;

    open spec fn view(&self) -> DeviceReportS {
        DeviceReportS {
            name: self.name@,
            core: self.core@,
            flash_start: self.flash_start,
            flash_size: self.flash_size,
            ram_start: self.ram_start,
            ram_size: self.ram_size,
            algorithm: match self.algorithm {
                Option::Some(ref a) => Some(a@),
                Option::None => None,
            },
            status: self.status,
        }
    }
}

/// Usage statistics of one algorithm across the scan.
#[derive(Debug, Clone)]
pub struct AlgorithmStat {
    pub algorithm_name: String,
    pub device_count: usize,
    pub devices: Vec<String>,
}

#[verifier::ext_equal]
pub ghost struct AlgorithmStatS {
    pub algorithm_name: Seq<char>,
    pub device_count: int,
    pub devices: Seq<Seq<char>>,
}

impl View for AlgorithmStat {
    type V = AlgorithmStatS;

    open spec fn view(&self) -> AlgorithmStatS {
        AlgorithmStatS {
            algorithm_name: self.algorithm_name@,
            device_count: self.device_count as int,
            devices: self.devices@.map_values(|s: String| s@),
        }
    }
}

/// The report of one pack scan.
#[derive(Debug, Clone)]
pub struct PackScanReport {
    pub pack_name: String,
    pub scan_time: String,
    pub total_devices: usize,
    pub devices_with_algo: usize,
    pub devices_without_algo: usize,
    pub devices: Vec<DeviceReport>,
    pub algorithm_stats: Vec<AlgorithmStat>,
}

pub ghost struct PackScanReportS {
    pub pack_name: Seq<char>,
    pub scan_time: Seq<char>,
    pub total_devices: int,
    pub devices_with_algo: int,
    pub devices_without_algo: int,
    pub devices: Seq<DeviceReportS>,
    pub algorithm_stats: Seq<AlgorithmStatS>,
}

impl View for PackScanReport {
    type V = PackScanReportS;

    open spec fn view(&self) -> PackScanReportS {
        PackScanReportS {
            pack_name: self.pack_name@,
            scan_time: self.scan_time@,
            total_devices: self.total_devices as int,
            devices_with_algo: self.devices_with_algo as int,
            devices_without_algo: self.devices_without_algo as int,
            devices: self.devices@.map_values(|d: DeviceReport| d@),
            algorithm_stats: self.algorithm_stats@.map_values(|s: AlgorithmStat| s@),
        }
    }
}

/// How many of the devices carry an algorithm.
pub open spec fn count_with_algo(devs: Seq<DeviceReportS>) -> int
    decreases devs.len(),
{
    if devs.len() == 0 {
        0
    } else {
        count_with_algo(devs.drop_last()) + if devs.last().algorithm is Some {
            1int
        } else {
            0int
        }
    }
}

/// How many of the devices have flash but no algorithm.
pub open spec fn count_without_algo(devs: Seq<DeviceReportS>) -> int
    decreases devs.len(),
{
    if devs.len() == 0 {
        0
    } else {
        count_without_algo(devs.drop_last()) + if devs.last().algorithm is None
            && devs.last().flash_size > 0 {
            1int
        } else {
            0int
        }
    }
}

pub proof fn lemma_count_bounds(devs: Seq<DeviceReportS>)
    ensures
        0 <= count_with_algo(devs) <= devs.len(),
        0 <= count_without_algo(devs) <= devs.len(),
    decreases devs.len(),
{
    if devs.len() > 0 {
        lemma_count_bounds(devs.drop_last());
    }
}

impl PackScanReport {
    /// The report's headline counts agree with its device rows.
    pub open spec fn wf(self) -> bool {
        &&& self@.total_devices == self@.devices.len()
        &&& self@.devices_with_algo == count_with_algo(self@.devices)
        &&& self@.devices_without_algo == count_without_algo(self@.devices)
    }

    /// An empty report for the named pack, stamped with the wall-clock
    /// scan time.
    pub fn new(pack_name: String) -> (r: Self)
        ensures
            r.wf(),
            r@.pack_name == pack_name@,
            r@.devices == Seq::<DeviceReportS>::empty(),
            r@.algorithm_stats == Seq::<AlgorithmStatS>::empty(),
            r@.total_devices == 0,
            r@.devices_with_algo == 0,
            r@.devices_without_algo == 0,
    {
        let r = PackScanReport {
            pack_name,
            scan_time: local_timestamp(),
            total_devices: 0,
            devices_with_algo: 0,
            devices_without_algo: 0,
            devices: Vec::new(),
            algorithm_stats: Vec::new(),
        };
        proof {
            assert(r@.devices =~= Seq::<DeviceReportS>::empty());
            assert(r@.algorithm_stats =~= Seq::<AlgorithmStatS>::empty());
        }
        r
    }

    /// Appends one device row, keeping the headline counts in step: the
    /// total always grows; the with-algorithm count grows when the row
    /// carries one; the without-algorithm count grows when the row has
    /// flash but no algorithm.
    pub fn add_device(&mut self, device: DeviceReport)
        requires
            old(self).wf(),
        ensures
            final(self).wf(),
            final(self)@.devices == old(self)@.devices.push(device@),
            final(self)@.total_devices == old(self)@.total_devices + 1,
            final(self)@.devices_with_algo == old(self)@.devices_with_algo + if device@.algorithm
                is Some {
                1int
            } else {
                0int
            },
            final(self)@.devices_without_algo == old(self)@.devices_without_algo
                + if device@.algorithm is None && device@.flash_size > 0 {
                1int
            } else {
                0int
            },
            final(self)@.pack_name == old(self)@.pack_name,
            final(self)@.scan_time == old(self)@.scan_time,
            final(self)@.algorithm_stats == old(self)@.algorithm_stats,
    {
        proof {
            lemma_count_bounds(old(self)@.devices);
        }
        let has_algo = device.algorithm.is_some();
        let no_algo_with_flash = device.algorithm.is_none() && device.flash_size > 0;
        let ghost dv = device@;
        self.devices.push(device);
        let n = self.devices.len();
        proof {
            assert(self.devices@.map_values(|d: DeviceReport| d@) =~= old(
                self,
            )@.devices.push(dv));
            assert(self.devices@.map_values(|d: DeviceReport| d@).drop_last() =~= old(
                self,
            )@.devices);
            assert(n as int == old(self)@.devices.len() + 1);
        }
        self.total_devices = self.total_devices + 1;
        if has_algo {
            self.devices_with_algo = self.devices_with_algo + 1;
        }
        if no_algo_with_flash {
            self.devices_without_algo = self.devices_without_algo + 1;
        }
    }

    /// The names of the devices that have flash but no algorithm, in
    /// report order.
    pub fn get_devices_without_algorithm(&self) -> (r: Vec<String>)
        ensures
            r@.map_values(|s: String| s@) == names_without_algo(self@.devices),
    {
        let mut out: Vec<String> = Vec::new();
        let mut i: usize = 0;
        while i < self.devices.len()
            invariant
                i <= self.devices@.len(),
                out@.map_values(|s: String| s@) == names_without_algo(
                    self.devices@.map_values(|d: DeviceReport| d@).subrange(0, i as int),
                ),
            decreases self.devices@.len() - i,
        {
            let ghost all = self.devices@.map_values(|d: DeviceReport| d@);
            let d = &self.devices[i];
            if d.algorithm.is_none() && d.flash_size > 0 {
                out.push(d.name.clone());
            }
            proof {
                assert(all.subrange(0, i + 1 as int).drop_last() =~= all.subrange(0, i as int));
                assert(all.subrange(0, i + 1 as int).last() == all[i as int]);
                assert(out@.map_values(|s: String| s@) =~= names_without_algo(
                    all.subrange(0, i + 1 as int),
                ));
            }
            i = i + 1;
        }
        proof {
            let all = self.devices@.map_values(|d: DeviceReport| d@);
            assert(all.subrange(0, all.len() as int) =~= all);
        }
        out
    }

    /// The rows whose status is not `Normal`, in report order.
    pub fn get_problematic_devices(&self) -> (r: Vec<DeviceReport>)
        ensures
            r@.map_values(|d: DeviceReport| d@) == problematic(self@.devices),
    {
        let mut out: Vec<DeviceReport> = Vec::new();
        let mut i: usize = 0;
        while i < self.devices.len()
            invariant
                i <= self.devices@.len(),
                out@.map_values(|d: DeviceReport| d@) == problematic(
                    self.devices@.map_values(|d: DeviceReport| d@).subrange(0, i as int),
                ),
            decreases self.devices@.len() - i,
        {
            let ghost all = self.devices@.map_values(|d: DeviceReport| d@);
            let d = &self.devices[i];
            if !(d.status == DeviceStatus::Normal) {
                out.push(clone_report(d));
            }
            proof {
                assert(all.subrange(0, i + 1 as int).drop_last() =~= all.subrange(0, i as int));
                assert(all.subrange(0, i + 1 as int).last() == all[i as int]);
                assert(out@.map_values(|d: DeviceReport| d@) =~= problematic(
                    all.subrange(0, i + 1 as int),
                ));
            }
            i = i + 1;
        }
        proof {
            let all = self.devices@.map_values(|d: DeviceReport| d@);
            assert(all.subrange(0, all.len() as int) =~= all);
        }
        out
    }

    /// Rebuilds the per-algorithm statistics from the rows: devices are
    /// grouped under their algorithm name in order of first appearance,
    /// then the groups are ordered by device count, largest first, ties
    /// keeping their order.
    pub fn calculate_algorithm_stats(&mut self)
        requires
            old(self).wf(),
        ensures
            final(self).wf(),
            final(self)@.algorithm_stats == sort_stats(collect_stats(old(self)@.devices)),
            final(self)@.devices == old(self)@.devices,
            final(self)@.pack_name == old(self)@.pack_name,
            final(self)@.scan_time == old(self)@.scan_time,
            final(self)@.total_devices == old(self)@.total_devices,
            final(self)@.devices_with_algo == old(self)@.devices_with_algo,
            final(self)@.devices_without_algo == old(self)@.devices_without_algo,
    {
        let grouped = group_stats(&self.devices);
        let sorted = sort_stats_exec(grouped);
        self.algorithm_stats = sorted;
    }
}

/// A copy of one statistics row, field by field.
fn clone_stat(s: &AlgorithmStat) -> (r: AlgorithmStat)
    ensures
        r@ == s@,
{
    let mut names: Vec<String> = Vec::new();
    let mut i: usize = 0;
    while i < s.devices.len()
        invariant
            i <= s.devices@.len(),
            names@.map_values(|n: String| n@) == s.devices@.map_values(|n: String| n@).subrange(
                0,
                i as int,
            ),
        decreases s.devices@.len() - i,
    {
        names.push(s.devices[i].clone());
        proof {
            let all = s.devices@.map_values(|n: String| n@);
            assert(names@.map_values(|n: String| n@) =~= all.subrange(0, i + 1 as int)) by {
                assert(all.subrange(0, i + 1 as int).drop_last() =~= all.subrange(0, i as int));
            }
        }
        i = i + 1;
    }
    proof {
        let all = s.devices@.map_values(|n: String| n@);
        assert(all.subrange(0, all.len() as int) =~= all);
    }
    let r = AlgorithmStat {
        algorithm_name: s.algorithm_name.clone(),
        device_count: s.device_count,
        devices: names,
    };
    r
}

/// A copy of one device row, field by field.
fn clone_report(d: &DeviceReport) -> (r: DeviceReport)
    ensures
        r@ == d@,
{
    DeviceReport {
        name: d.name.clone(),
        core: d.core.clone(),
        flash_start: d.flash_start,
        flash_size: d.flash_size,
        ram_start: d.ram_start,
        ram_size: d.ram_size,
        algorithm: match &d.algorithm {
            Some(a) => Some(
                AlgorithmInfo {
                    name: a.name.clone(),
                    flm_file: a.flm_file.clone(),
                    page_size: a.page_size,
                    sector_count: a.sector_count,
                },
            ),
            None => None,
        },
        status: d.status,
    }
}

/// Relies on chrono's Local::now and its formatter: a wall-clock
/// timestamp string. Nothing is assumed of its value.
#[verifier::external_body]
fn local_timestamp() -> String {
    chrono::Local::now().format("%Y-%m-%d %H:%M:%S").to_string()
}

/// Names of the devices with flash but no algorithm.
pub open spec fn names_without_algo(devs: Seq<DeviceReportS>) -> Seq<Seq<char>>
    decreases devs.len(),
{
    if devs.len() == 0 {
        Seq::empty()
    } else {
        let pre = names_without_algo(devs.drop_last());
        if devs.last().algorithm is None && devs.last().flash_size > 0 {
            pre.push(devs.last().name)
        } else {
            pre
        }
    }
}

/// The rows whose status is not `Normal`.
pub open spec fn problematic(devs: Seq<DeviceReportS>) -> Seq<DeviceReportS>
    decreases devs.len(),
{
    if devs.len() == 0 {
        Seq::empty()
    } else {
        let pre = problematic(devs.drop_last());
        if devs.last().status != DeviceStatus::Normal {
            pre.push(devs.last())
        } else {
            pre
        }
    }
}

/// One device folded into the statistics: the first group of its
/// algorithm name grows by it, or a new group opens at the end.
pub open spec fn add_to_stats(acc: Seq<AlgorithmStatS>, algo: Seq<char>, dev: Seq<char>)
    -> Seq<AlgorithmStatS>
    decreases acc.len(),
{
    if acc.len() == 0 {
        seq![AlgorithmStatS { algorithm_name: algo, device_count: 1, devices: seq![dev] }]
    } else if acc[0].algorithm_name == algo {
        seq![
            AlgorithmStatS {
                algorithm_name: acc[0].algorithm_name,
                device_count: acc[0].devices.len() as int + 1,
                devices: acc[0].devices.push(dev),
            },
        ] + acc.drop_first()
    } else {
        seq![acc[0]] + add_to_stats(acc.drop_first(), algo, dev)
    }
}

/// The statistics of the rows, grouped in order of first appearance.
pub open spec fn collect_stats(devs: Seq<DeviceReportS>) -> Seq<AlgorithmStatS>
    decreases devs.len(),
{
    if devs.len() == 0 {
        Seq::empty()
    } else {
        let pre = collect_stats(devs.drop_last());
        match devs.last().algorithm {
            Option::Some(a) => add_to_stats(pre, a.name, devs.last().name),
            Option::None => pre,
        }
    }
}

/// Insertion into a count-descending list: `x` goes before the first
/// strictly smaller count, after any equal one.
pub open spec fn insert_stat(sorted: Seq<AlgorithmStatS>, x: AlgorithmStatS)
    -> Seq<AlgorithmStatS>
    decreases sorted.len(),
{
    if sorted.len() == 0 {
        seq![x]
    } else if x.device_count > sorted[0].device_count {
        seq![x] + sorted
    } else {
        seq![sorted[0]] + insert_stat(sorted.drop_first(), x)
    }
}

/// Stable ordering of the groups by device count, largest first.
pub open spec fn sort_stats(s: Seq<AlgorithmStatS>) -> Seq<AlgorithmStatS>
    decreases s.len(),
{
    if s.len() == 0 {
        Seq::empty()
    } else {
        insert_stat(sort_stats(s.drop_last()), s.last())
    }
}

proof fn lemma_add_to_stats_found(acc: Seq<AlgorithmStatS>, algo: Seq<char>, dev: Seq<char>, idx: int)
    requires
        0 <= idx < acc.len(),
        acc[idx].algorithm_name == algo,
        forall|j: int| 0 <= j < idx ==> acc[j].algorithm_name != algo,
    ensures
        add_to_stats(acc, algo, dev) == acc.update(
            idx,
            AlgorithmStatS {
                algorithm_name: acc[idx].algorithm_name,
                device_count: acc[idx].devices.len() as int + 1,
                devices: acc[idx].devices.push(dev),
            },
        ),
    decreases idx,
{
    if idx == 0 {
        assert(add_to_stats(acc, algo, dev) =~= acc.update(
            0,
            AlgorithmStatS {
                algorithm_name: acc[0].algorithm_name,
                device_count: acc[0].devices.len() as int + 1,
                devices: acc[0].devices.push(dev),
            },
        ));
    } else {
        assert(acc[0].algorithm_name != algo);
        lemma_add_to_stats_found(acc.drop_first(), algo, dev, idx - 1);
        assert(seq![acc[0]] + acc.drop_first().update(
            idx - 1,
            AlgorithmStatS {
                algorithm_name: acc[idx].algorithm_name,
                device_count: acc[idx].devices.len() as int + 1,
                devices: acc[idx].devices.push(dev),
            },
        ) =~= acc.update(
            idx,
            AlgorithmStatS {
                algorithm_name: acc[idx].algorithm_name,
                device_count: acc[idx].devices.len() as int + 1,
                devices: acc[idx].devices.push(dev),
            },
        ));
    }
}

proof fn lemma_add_to_stats_absent(acc: Seq<AlgorithmStatS>, algo: Seq<char>, dev: Seq<char>)
    requires
        forall|j: int| 0 <= j < acc.len() ==> acc[j].algorithm_name != algo,
    ensures
        add_to_stats(acc, algo, dev) == acc.push(
            AlgorithmStatS { algorithm_name: algo, device_count: 1, devices: seq![dev] },
        ),
    decreases acc.len(),
{
    if acc.len() == 0 {
        assert(add_to_stats(acc, algo, dev) =~= acc.push(
            AlgorithmStatS { algorithm_name: algo, device_count: 1, devices: seq![dev] },
        ));
    } else {
        lemma_add_to_stats_absent(acc.drop_first(), algo, dev);
        assert(seq![acc[0]] + acc.drop_first().push(
            AlgorithmStatS { algorithm_name: algo, device_count: 1, devices: seq![dev] },
        ) =~= acc.push(
            AlgorithmStatS { algorithm_name: algo, device_count: 1, devices: seq![dev] },
        ));
    }
}

proof fn lemma_insert_stat_at(sorted: Seq<AlgorithmStatS>, x: AlgorithmStatS, pos: int)
    requires
        0 <= pos <= sorted.len(),
        forall|j: int| 0 <= j < pos ==> sorted[j].device_count >= x.device_count,
        pos < sorted.len() ==> x.device_count > sorted[pos].device_count,
    ensures
        insert_stat(sorted, x) == sorted.insert(pos, x),
    decreases pos,
{
    if sorted.len() == 0 {
        assert(insert_stat(sorted, x) =~= sorted.insert(0, x));
    } else if x.device_count > sorted[0].device_count {
        assert(pos == 0);
        assert(insert_stat(sorted, x) =~= sorted.insert(0, x));
    } else {
        assert(pos >= 1);
        lemma_insert_stat_at(sorted.drop_first(), x, pos - 1);
        assert(seq![sorted[0]] + sorted.drop_first().insert(pos - 1, x) =~= sorted.insert(pos, x));
    }
}

/// Groups the rows' devices under their algorithm names.
fn group_stats(devices: &Vec<DeviceReport>) -> (r: Vec<AlgorithmStat>)
    ensures
        r@.map_values(|s: AlgorithmStat| s@) == collect_stats(
            devices@.map_values(|d: DeviceReport| d@),
        ),
{
    let mut acc: Vec<AlgorithmStat> = Vec::new();
    let mut i: usize = 0;
    while i < devices.len()
        invariant
            i <= devices@.len(),
            acc@.map_values(|s: AlgorithmStat| s@) == collect_stats(
                devices@.map_values(|d: DeviceReport| d@).subrange(0, i as int),
            ),
        decreases devices@.len() - i,
    {
        let ghost all = devices@.map_values(|d: DeviceReport| d@);
        let ghost acc0 = acc@.map_values(|s: AlgorithmStat| s@);
        let d = &devices[i];
        match &d.algorithm {
            None => {},
            Some(a) => {
                let mut idx: usize = 0;
                let mut found = false;
                while idx < acc.len() && !found
                    invariant
                        idx <= acc@.len(),
                        found ==> idx < acc@.len() && acc@[idx as int]@.algorithm_name == a@.name
                            && forall|j: int|
                            0 <= j < idx ==> acc@[j]@.algorithm_name != a@.name,
                        !found ==> forall|j: int|
                            0 <= j < idx ==> acc@[j]@.algorithm_name != a@.name,
                    decreases acc@.len() - idx + if found {
                        0int
                    } else {
                        1int
                    },
                {
                    if acc[idx].algorithm_name == a.name {
                        found = true;
                    } else {
                        idx = idx + 1;
                    }
                }
                if found {
                    let ghost accv = acc@;
                    let mut entry = acc.remove(idx);
                    entry.devices.push(d.name.clone());
                    entry.device_count = entry.devices.len();
                    proof {
                        lemma_add_to_stats_found(acc0, a@.name, d@.name, idx as int);
                        assert(entry@.devices =~= acc0[idx as int].devices.push(d@.name));
                        assert(entry@.device_count == acc0[idx as int].devices.len() as int + 1);
                        assert(entry@.algorithm_name == acc0[idx as int].algorithm_name);
                        assert(entry@ =~= AlgorithmStatS {
                            algorithm_name: acc0[idx as int].algorithm_name,
                            device_count: acc0[idx as int].devices.len() as int + 1,
                            devices: acc0[idx as int].devices.push(d@.name),
                        });
                    }
                    acc.insert(idx, entry);
                    proof {
                        assert(acc@ =~= accv.update(idx as int, acc@[idx as int]));
                        assert(acc@.map_values(|s: AlgorithmStat| s@) =~= acc0.update(
                            idx as int,
                            acc@[idx as int]@,
                        ));
                        assert(acc@.map_values(|s: AlgorithmStat| s@) =~= add_to_stats(
                            acc0,
                            a@.name,
                            d@.name,
                        ));
                    }
                } else {
                    let mut names: Vec<String> = Vec::new();
                    names.push(d.name.clone());
                    acc.push(
                        AlgorithmStat {
                            algorithm_name: a.name.clone(),
                            device_count: 1,
                            devices: names,
                        },
                    );
                    proof {
                        lemma_add_to_stats_absent(acc0, a@.name, d@.name);
                        assert(acc@.last()@.devices =~= seq![d@.name]);
                        assert(acc@.last()@ =~= (AlgorithmStatS {
                            algorithm_name: a@.name,
                            device_count: 1,
                            devices: seq![d@.name],
                        }));
                        assert(acc@.map_values(|s: AlgorithmStat| s@) =~= add_to_stats(
                            acc0,
                            a@.name,
                            d@.name,
                        ));
                    }
                }
            },
        }
        proof {
            assert(all.subrange(0, i + 1 as int).drop_last() =~= all.subrange(0, i as int));
            assert(all.subrange(0, i + 1 as int).last() == all[i as int]);
        }
        i = i + 1;
    }
    proof {
        let all = devices@.map_values(|d: DeviceReport| d@);
        assert(all.subrange(0, all.len() as int) =~= all);
    }
    acc
}

/// Orders the groups by device count, largest first, stably.
fn sort_stats_exec(stats: Vec<AlgorithmStat>) -> (r: Vec<AlgorithmStat>)
    ensures
        r@.map_values(|s: AlgorithmStat| s@) == sort_stats(
            stats@.map_values(|s: AlgorithmStat| s@),
        ),
{
    let mut out: Vec<AlgorithmStat> = Vec::new();
    let mut k: usize = 0;
    while k < stats.len()
        invariant
            k <= stats@.len(),
            out@.map_values(|s: AlgorithmStat| s@) == sort_stats(
                stats@.map_values(|s: AlgorithmStat| s@).subrange(0, k as int),
            ),
        decreases stats@.len() - k,
    {
        let ghost all = stats@.map_values(|s: AlgorithmStat| s@);
        let ghost out0 = out@.map_values(|s: AlgorithmStat| s@);
        let x = clone_stat(&stats[k]);
        let mut pos: usize = 0;
        while pos < out.len() && out[pos].device_count >= x.device_count
            invariant
                pos <= out@.len(),
                forall|j: int|
                    0 <= j < pos ==> out@[j]@.device_count >= x@.device_count,
            decreases out@.len() - pos,
        {
            pos = pos + 1;
        }
        proof {
            lemma_insert_stat_at(out0, x@, pos as int);
        }
        out.insert(pos, x);
        proof {
            assert(out@.map_values(|s: AlgorithmStat| s@) =~= insert_stat(out0, all[k as int]));
            assert(all.subrange(0, k + 1 as int).drop_last() =~= all.subrange(0, k as int));
            assert(all.subrange(0, k + 1 as int).last() == all[k as int]);
        }
        k = k + 1;
    }
    proof {
        let all = stats@.map_values(|s: AlgorithmStat| s@);
        assert(all.subrange(0, all.len() as int) =~= all);
    }
    out
}

} // verus!
