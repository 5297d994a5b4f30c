//! Machines and disks as found in a directory: the cards the grid draws, the
//! rows of the disks view, and the guarded ways to delete or rewire them.
//!
//! Directories, files and images are read outside; this module decides what
//! they amount to.
use crate::host::Host;
use crate::laws::deletes;
use crate::paths;
use crate::profile::{self, BootMode, DiskSection, VirtioTransport, VmConfig};
use crate::snapshots::{self, SnapshotRow};
use crate::sorting::{self, Ranked};
use crate::text;
use vstd::prelude::*;

verus! {

/// Why a directory could not be scanned.
#[derive(Debug, PartialEq, Eq)]
pub enum DiscoveryError {
    ReadDir { path: String, source: String },
}

impl DiscoveryError {
    /// The sentence shown to the user.
    pub fn message(&self) -> (r: String)
        ensures
            r@ == match *self {
                DiscoveryError::ReadDir { path, source } => "cannot read the VM directory "@ + path@
                    + ": "@ + source@,
            },
    {
        match self {
            DiscoveryError::ReadDir { path, source } => text::cat4(
                "cannot read the VM directory ",
                path,
                ": ",
                source,
            ),
        }
    }
}

/// Why a machine was not deleted.
#[derive(Debug, PartialEq, Eq)]
pub enum DeleteError {
    Busy(String),
    NameMismatch(String),
    Remove { path: String, source: String },
}

impl DeleteError {
    pub open spec fn spec_message(self) -> Seq<char> {
        match self {
            DeleteError::Busy(name) => "'"@ + name@ + "' is busy — stop it before deleting"@,
            DeleteError::NameMismatch(name) => "the typed name does not match '"@ + name@ + "'"@,
            DeleteError::Remove { path, source } => "cannot remove "@ + path@ + ": "@ + source@,
        }
    }

    /// The sentence shown to the user.
    pub fn message(&self) -> (r: String)
        ensures
            r@ == self.spec_message(),
    {
        match self {
            DeleteError::Busy(name) => text::cat3("'", name, "' is busy — stop it before deleting"),
            DeleteError::NameMismatch(name) => text::cat3(
                "the typed name does not match '",
                name,
                "'",
            ),
            DeleteError::Remove { path, source } => text::cat4(
                "cannot remove ",
                path,
                ": ",
                source,
            ),
        }
    }
}

// ---------------------------------------------------------------------------
// Sizes and names
// ---------------------------------------------------------------------------

pub open spec fn unit_name(steps: nat) -> Seq<char> {
    if steps == 0 {
        "B"@
    } else if steps == 1 {
        "KiB"@
    } else if steps == 2 {
        "MiB"@
    } else if steps == 3 {
        "GiB"@
    } else if steps == 4 {
        "TiB"@
    } else if steps == 5 {
        "PiB"@
    } else {
        "EiB"@
    }
}

/// How often `bytes` can be divided by 1024 before it falls below 1024.
pub open spec fn unit_steps(bytes: nat) -> nat
    decreases bytes,
{
    if bytes < 1024 {
        0
    } else {
        1 + unit_steps(bytes / 1024)
    }
}

/// How many bytes one unit holds.
pub open spec fn unit_bytes(steps: nat) -> nat
    decreases steps,
{
    if steps == 0 {
        1
    } else {
        1024 * unit_bytes((steps - 1) as nat)
    }
}

/// `n / d` to the nearest integer, halves to the even one.
pub open spec fn rounded(n: nat, d: nat) -> nat
    recommends
        d > 0,
{
    let q = n / d;
    let rest = n % d;
    if 2 * rest > d || (2 * rest == d && q % 2 == 1) {
        q + 1
    } else {
        q
    }
}

/// A size in the largest unit that leaves at least one of it: whole bytes, one
/// decimal below a hundred units, none from there on.
pub open spec fn bytes_shown(bytes: nat) -> Seq<char> {
    let steps = unit_steps(bytes);
    let unit = unit_bytes(steps);
    if steps == 0 {
        text::decimal_of(bytes) + " "@ + unit_name(0)
    } else if bytes >= 100 * unit {
        text::decimal_of(rounded(bytes, unit)) + " "@ + unit_name(steps)
    } else {
        let tenths = rounded(10 * bytes, unit);
        text::decimal_of(tenths / 10) + "."@ + text::decimal_of(tenths % 10) + " "@ + unit_name(
            steps,
        )
    }
}

proof fn lemma_steps(bytes: nat)
    requires
        bytes <= u64::MAX,
    ensures
        unit_steps(bytes) <= 6,
{
    reveal_with_fuel(unit_steps, 8);
}

fn round_half_even(n: u128, d: u128) -> (r: u128)
    requires
        0 < d <= 0x1000_0000_0000_0000_0000,
        n <= 0x1_0000_0000_0000_0000_0000,
    ensures
        r == rounded(n as nat, d as nat),
        r <= n + 1,
{
    let q: u128 = n / d;
    let rest: u128 = n % d;
    proof {
        assert(q <= n) by (nonlinear_arith)
            requires
                q == n / d,
                d > 0,
        ;
    }
    if 2 * rest > d || (2 * rest == d && q % 2 == 1) {
        q + 1
    } else {
        q
    }
}

/// A size for people: "1023 B", "16.0 GiB", "700 MiB".
pub fn format_bytes(bytes: u64) -> (r: String)
    ensures
        r@ == bytes_shown(bytes as nat),
{
    let mut steps: u64 = 0;
    let mut left: u64 = bytes;
    let mut unit: u128 = 1;
    proof {
        lemma_steps(bytes as nat);
    }
    while left >= 1024
        invariant
            steps + unit_steps(left as nat) == unit_steps(bytes as nat),
            unit_steps(bytes as nat) <= 6,
            unit == unit_bytes(steps as nat),
            unit <= 0x1000_0000_0000_0000,
            steps == 0 ==> unit == 1,
            steps == 1 ==> unit == 0x400,
            steps == 2 ==> unit == 0x10_0000,
            steps == 3 ==> unit == 0x4000_0000,
            steps == 4 ==> unit == 0x100_0000_0000,
            steps == 5 ==> unit == 0x4_0000_0000_0000,
            steps == 6 ==> unit == 0x1000_0000_0000_0000,
        decreases left,
    {
        unit = unit * 1024;
        left = left / 1024;
        steps = steps + 1;
    }
    let name = if steps == 0 {
        "B"
    } else if steps == 1 {
        "KiB"
    } else if steps == 2 {
        "MiB"
    } else if steps == 3 {
        "GiB"
    } else if steps == 4 {
        "TiB"
    } else if steps == 5 {
        "PiB"
    } else {
        "EiB"
    };
    if steps == 0 {
        return text::cat3(&text::decimal(bytes), " ", name);
    }
    let wide: u128 = bytes as u128;
    if wide >= 100 * unit {
        let whole: u128 = round_half_even(wide, unit);
        assert(whole <= u64::MAX) by {
            assert(wide / unit <= wide / 1024) by (nonlinear_arith)
                requires
                    unit >= 1024,
            ;
        }
        return text::cat3(&text::decimal(whole as u64), " ", name);
    }
    let tenths: u128 = round_half_even(10 * wide, unit);
    assert(tenths <= 1001) by {
        assert((10 * wide) / (unit as int) <= 1000) by (nonlinear_arith)
            requires
                wide < 100 * unit,
                unit > 0,
        ;
    }
    text::cat5(
        &text::decimal((tenths / 10) as u64),
        ".",
        &text::decimal((tenths % 10) as u64),
        " ",
        name,
    )
}

pub open spec fn is_name_char(c: char) -> bool {
    text::is_letter(c) || text::is_digit(c) || c == '-' || c == '_' || c == '.'
}

/// What is wrong with a name, if anything.
pub open spec fn name_fault(name: Seq<char>) -> Option<Seq<char>> {
    if name.len() == 0 {
        Some("name must not be empty"@)
    } else if vstd::utf8::encode_utf8(name).len() > 40 {
        Some("name must be 40 characters or fewer"@)
    } else if exists|i: int| 0 <= i < name.len() && !is_name_char(#[trigger] name[i]) {
        Some("use letters, digits, '-', '_' or '.' only"@)
    } else if !(text::is_letter(name[0]) || text::is_digit(name[0])) {
        Some("name must start with a letter or digit"@)
    } else {
        None
    }
}

/// Names must be safe as both a file stem and a machine or host name.
pub fn validate_name(name: &str) -> (r: Result<(), String>)
    ensures
        match name_fault(name@) {
            Some(m) => r matches Err(e) && e@ == m,
            None => r is Ok,
        },
{
    if name.is_empty() {
        return Err("name must not be empty".to_owned());
    }
    if name.as_bytes().len() > 40 {
        return Err("name must be 40 characters or fewer".to_owned());
    }
    let v = text::chars_of(name);
    let mut i: usize = 0;
    while i < v.len()
        invariant
            v@ == name@,
            i <= v@.len(),
            name@.len() > 0,
            vstd::utf8::encode_utf8(name@).len() <= 40,
            forall|j: int| 0 <= j < i ==> is_name_char(#[trigger] name@[j]),
        decreases v@.len() - i,
    {
        let c = v[i];
        if !(text::letter(c) || text::digit(c) || c == '-' || c == '_' || c == '.') {
            assert(!is_name_char(name@[i as int]));
            return Err("use letters, digits, '-', '_' or '.' only".to_owned());
        }
        i = i + 1;
    }
    if !(text::letter(v[0]) || text::digit(v[0])) {
        return Err("name must start with a letter or digit".to_owned());
    }
    Ok(())
}

/// A valid name is a single file name on either host: it holds no separator and
/// no white space, and is not one of the dot entries.
pub proof fn valid_names_are_file_names(name: Seq<char>, host: Host)
    requires
        name_fault(name) is None,
    ensures
        forall|i: int|
            0 <= i < name.len() ==> !paths::is_sep(host, #[trigger] name[i]) && !text::is_white(
                name[i],
            ) && name[i] != ':',
        name != "."@,
        name != ".."@,
{
    reveal_strlit(".");
    reveal_strlit("..");
    assert forall|i: int| 0 <= i < name.len() implies !paths::is_sep(host, #[trigger] name[i])
        && !text::is_white(name[i]) && name[i] != ':' by {
        assert(is_name_char(name[i]));
    }
}

// ---------------------------------------------------------------------------
// Machines
// ---------------------------------------------------------------------------

/// One disk of a machine, with the numbers the card shows.
#[derive(Debug, PartialEq, Eq)]
pub struct DiskInfo {
    /// Path exactly as written in the profile.
    pub declared: String,
    /// Path after resolving a relative entry against the child's working
    /// directory and then the profile's directory.
    pub resolved: String,
    pub exists: bool,
    pub writable: bool,
    /// Nominal image size.
    pub size_bytes: u64,
    /// Blocks actually allocated; `None` where the platform does not say.
    pub allocated_bytes: Option<u64>,
}

impl Clone for DiskInfo {
    fn clone(&self) -> (r: DiskInfo)
        ensures
            r == *self,
    {
        DiskInfo {
            declared: self.declared.clone(),
            resolved: self.resolved.clone(),
            exists: self.exists,
            writable: self.writable,
            size_bytes: self.size_bytes,
            allocated_bytes: self.allocated_bytes,
        }
    }
}

/// A machine as discovered on disk.
#[derive(Debug, PartialEq, Eq)]
pub struct VmEntry {
    pub name: String,
    pub profile_path: String,
    pub memory_mib: u64,
    pub vcpus: u32,
    /// Part of the machine's shape: a snapshot taken with one transport cannot
    /// be restored onto the other.
    pub transport: VirtioTransport,
    pub display: (u32, u32),
    pub network_interface: Option<String>,
    pub disks: Vec<DiskInfo>,
    /// The profile boots through UEFI firmware rather than loading a kernel.
    pub uefi: bool,
}

/// The sum of the disks' nominal sizes.
pub open spec fn total_size(disks: Seq<DiskInfo>) -> nat
    decreases disks.len(),
{
    if disks.len() == 0 {
        0
    } else {
        total_size(disks.drop_last()) + disks.last().size_bytes as nat
    }
}

/// The sum of what the disks occupy, if every one of them says.
pub open spec fn total_allocated(disks: Seq<DiskInfo>) -> Option<nat>
    decreases disks.len(),
{
    if disks.len() == 0 {
        Some(0)
    } else {
        match (total_allocated(disks.drop_last()), disks.last().allocated_bytes) {
            (Some(sum), Some(n)) => Some(sum + n as nat),
            _ => None,
        }
    }
}

proof fn lemma_size_grows(disks: Seq<DiskInfo>, k: int)
    requires
        0 <= k <= disks.len(),
    ensures
        total_size(disks.take(k)) <= total_size(disks),
    decreases disks.len() - k,
{
    if k < disks.len() {
        lemma_size_grows(disks, k + 1);
        assert(disks.take(k + 1).drop_last() =~= disks.take(k));
    } else {
        assert(disks.take(k) =~= disks);
    }
}

proof fn lemma_allocated_grows(disks: Seq<DiskInfo>, k: int)
    requires
        0 <= k <= disks.len(),
    ensures
        total_allocated(disks.take(k)) is None ==> total_allocated(disks) is None,
        total_allocated(disks) matches Some(all) ==> (total_allocated(disks.take(k)) matches Some(n)
            && n <= all),
    decreases disks.len() - k,
{
    if k < disks.len() {
        lemma_allocated_grows(disks, k + 1);
        assert(disks.take(k + 1).drop_last() =~= disks.take(k));
    } else {
        assert(disks.take(k) =~= disks);
    }
}

impl VmEntry {
    /// The machine's disks together, in nominal bytes.
    pub fn size_bytes(&self) -> (r: u64)
        requires
            total_size(self.disks@) <= u64::MAX,
        ensures
            r == total_size(self.disks@),
    {
        let mut sum: u64 = 0;
        let mut i: usize = 0;
        while i < self.disks.len()
            invariant
                i <= self.disks@.len(),
                total_size(self.disks@) <= u64::MAX,
                sum == total_size(self.disks@.take(i as int)),
            decreases self.disks@.len() - i,
        {
            proof {
                lemma_size_grows(self.disks@, i + 1);
                assert(self.disks@.take(i + 1).drop_last() =~= self.disks@.take(i as int));
            }
            sum = sum + self.disks[i].size_bytes;
            i = i + 1;
        }
        assert(self.disks@.take(i as int) =~= self.disks@);
        sum
    }

    /// What the machine's disks occupy together, where every one of them says.
    pub fn allocated_bytes(&self) -> (r: Option<u64>)
        requires
            total_allocated(self.disks@) matches Some(n) ==> n <= u64::MAX,
        ensures
            match total_allocated(self.disks@) {
                Some(n) => r == Some(n as u64),
                None => r is None,
            },
    {
        let mut i: usize = 0;
        while i < self.disks.len()
            invariant
                i <= self.disks@.len(),
                total_allocated(self.disks@.take(i as int)) is Some,
            decreases self.disks@.len() - i,
        {
            proof {
                assert(self.disks@.take(i + 1).drop_last() =~= self.disks@.take(i as int));
                lemma_allocated_grows(self.disks@, i + 1);
            }
            if self.disks[i].allocated_bytes.is_none() {
                return None;
            }
            i = i + 1;
        }
        assert(self.disks@.take(i as int) =~= self.disks@);
        let mut sum: u64 = 0;
        let mut k: usize = 0;
        while k < self.disks.len()
            invariant
                k <= self.disks@.len(),
                total_allocated(self.disks@) matches Some(n) && n <= u64::MAX,
                total_allocated(self.disks@.take(k as int)) == Some(sum as nat),
            decreases self.disks@.len() - k,
        {
            proof {
                assert(self.disks@.take(k + 1).drop_last() =~= self.disks@.take(k as int));
                lemma_allocated_grows(self.disks@, k + 1);
            }
            if let Some(n) = self.disks[k].allocated_bytes {
                sum = sum + n;
            }
            k = k + 1;
        }
        assert(self.disks@.take(k as int) =~= self.disks@);
        Some(sum)
    }
}

/// A copy of a list of disks.
pub fn clone_infos(disks: &Vec<DiskInfo>) -> (r: Vec<DiskInfo>)
    ensures
        r@ == disks@,
{
    let mut r: Vec<DiskInfo> = Vec::new();
    let mut i: usize = 0;
    while i < disks.len()
        invariant
            i <= disks@.len(),
            r@ == disks@.take(i as int),
        decreases disks@.len() - i,
    {
        r.push(disks[i].clone());
        i = i + 1;
    }
    assert(disks@.take(i as int) =~= disks@);
    r
}

impl Clone for VmEntry {
    fn clone(&self) -> (r: VmEntry)
        ensures
            r.disks@ == self.disks@,
            r == (VmEntry { disks: r.disks, ..*self }),
    {
        VmEntry {
            name: self.name.clone(),
            profile_path: self.profile_path.clone(),
            memory_mib: self.memory_mib,
            vcpus: self.vcpus,
            transport: self.transport,
            display: self.display,
            network_interface: text::clone_opt(&self.network_interface),
            disks: clone_infos(&self.disks),
            uefi: self.uefi,
        }
    }
}

/// A machine, and what inspecting each of its disks found.
#[derive(Debug, PartialEq, Eq)]
pub struct Machine {
    pub vm: VmEntry,
    pub facts: Vec<DiskFacts>,
}

impl Ranked for Machine {
    open spec fn ranks_before(&self, other: &Machine, host: Host) -> bool {
        text::precedes(self.vm.name@, other.vm.name@)
    }

    fn before(&self, other: &Machine, host: Host) -> (r: bool) {
        text::before(&self.vm.name, &other.vm.name)
    }

    proof fn ranks_lawfully(a: &Machine, b: &Machine, c: &Machine, host: Host) {
        lemma_texts_rank(a.vm.name@, b.vm.name@, c.vm.name@);
    }
}

/// The machines without what was found of their disks.
pub open spec fn vms_of(machines: Seq<Machine>) -> Seq<VmEntry> {
    machines.map_values(|m: Machine| m.vm)
}

/// What was found of the disks, machine by machine.
pub open spec fn facts_of(machines: Seq<Machine>) -> Seq<Vec<DiskFacts>> {
    machines.map_values(|m: Machine| m.facts)
}

proof fn lemma_texts_rank(a: Seq<char>, b: Seq<char>, c: Seq<char>)
    ensures
        !(text::precedes(a, b) && text::precedes(b, a)),
        text::precedes(a, c) ==> text::precedes(a, b) || text::precedes(b, c),
{
    text::order_is_total(a, b);
    if text::precedes(a, c) && text::precedes(b, a) {
        text::order_is_transitive(b, a, c);
    }
}

/// What looking for a declared disk found, in each place and at the place it
/// resolved to.
#[derive(Debug, Clone, Copy, PartialEq, Eq)]
pub struct DiskProbe {
    pub in_work_dir: bool,
    pub in_profile_dir: bool,
    pub exists: bool,
    pub size_bytes: u64,
    pub allocated_bytes: Option<u64>,
}

/// Where a declared disk path leads.
pub open spec fn resolved_of(
    host: Host,
    path: Seq<char>,
    work_dir: Option<Seq<char>>,
    profile_dir: Option<Seq<char>>,
    in_work_dir: bool,
    in_profile_dir: bool,
) -> Seq<char> {
    if paths::is_absolute_of(host, path) {
        path
    } else if work_dir is Some && in_work_dir {
        paths::joined(host, work_dir->0, path)
    } else if profile_dir is Some && in_profile_dir {
        paths::joined(host, profile_dir->0, path)
    } else {
        match work_dir {
            Some(dir) => paths::joined(host, dir, path),
            None => match profile_dir {
                Some(dir) => paths::joined(host, dir, path),
                None => path,
            },
        }
    }
}

/// Relative paths in a profile resolve like the engine resolves them, against
/// the child's working directory; if nothing is there, the profile's directory
/// is tried, which is where an installation puts the disk.
pub fn resolve(
    host: Host,
    path: &str,
    work_dir: &Option<String>,
    profile_dir: &Option<String>,
    in_work_dir: bool,
    in_profile_dir: bool,
) -> (r: String)
    ensures
        r@ == resolved_of(
            host,
            path@,
            text::opt_text(*work_dir),
            text::opt_text(*profile_dir),
            in_work_dir,
            in_profile_dir,
        ),
{
    if paths::is_absolute(host, path) {
        return path.to_owned();
    }
    if let Some(dir) = work_dir {
        if in_work_dir {
            return paths::join(host, dir, path);
        }
    }
    if let Some(dir) = profile_dir {
        if in_profile_dir {
            return paths::join(host, dir, path);
        }
    }
    match work_dir {
        Some(dir) => paths::join(host, dir, path),
        None => match profile_dir {
            Some(dir) => paths::join(host, dir, path),
            None => path.to_owned(),
        },
    }
}

/// One disk of a profile, measured.
pub open spec fn info_matches(
    info: DiskInfo,
    host: Host,
    disk: DiskSection,
    probe: DiskProbe,
    work_dir: Option<Seq<char>>,
    profile_dir: Option<Seq<char>>,
) -> bool {
    &&& info.declared == disk.path
    &&& info.resolved@ == resolved_of(
        host,
        disk.path@,
        work_dir,
        profile_dir,
        probe.in_work_dir,
        probe.in_profile_dir,
    )
    &&& info.exists == probe.exists
    &&& info.writable == disk.writable
    &&& info.size_bytes == (if probe.exists {
        probe.size_bytes
    } else {
        0
    })
    &&& info.allocated_bytes == (if probe.exists {
        probe.allocated_bytes
    } else {
        None
    })
}

/// The machine that a profile describes, with its disks measured by `probes`,
/// one for each disk of the profile.
pub fn entry_from_config(
    host: Host,
    path: &str,
    cfg: &VmConfig,
    work_dir: &Option<String>,
    probes: &Vec<DiskProbe>,
) -> (r: VmEntry)
    requires
        probes@.len() == cfg.disks@.len(),
    ensures
        r.name == cfg.name,
        r.profile_path@ == path@,
        r.memory_mib == cfg.memory_mib,
        r.vcpus == cfg.vcpus,
        r.transport == cfg.transport,
        r.display == (cfg.display.width, cfg.display.height),
        text::opt_text(r.network_interface) == (match cfg.network {
            Some(n) => text::opt_text(n.interface),
            None => None,
        }),
        r.uefi == (cfg.boot.mode == BootMode::Uefi),
        r.disks@.len() == cfg.disks@.len(),
        forall|i: int|
            0 <= i < r.disks@.len() ==> info_matches(
                #[trigger] r.disks@[i],
                host,
                cfg.disks@[i],
                probes@[i],
                text::opt_text(*work_dir),
                paths::parent_of(host, path@),
            ),
{
    let profile_dir = paths::parent(host, path);
    let mut disks: Vec<DiskInfo> = Vec::new();
    let mut i: usize = 0;
    while i < cfg.disks.len()
        invariant
            probes@.len() == cfg.disks@.len(),
            i <= cfg.disks@.len(),
            disks@.len() == i,
            text::opt_text(profile_dir) == paths::parent_of(host, path@),
            forall|k: int|
                0 <= k < i ==> info_matches(
                    #[trigger] disks@[k],
                    host,
                    cfg.disks@[k],
                    probes@[k],
                    text::opt_text(*work_dir),
                    paths::parent_of(host, path@),
                ),
        decreases cfg.disks@.len() - i,
    {
        let disk = &cfg.disks[i];
        let probe = probes[i];
        let resolved = resolve(
            host,
            &disk.path,
            work_dir,
            &profile_dir,
            probe.in_work_dir,
            probe.in_profile_dir,
        );
        disks.push(
            DiskInfo {
                declared: disk.path.clone(),
                resolved,
                exists: probe.exists,
                writable: disk.writable,
                size_bytes: if probe.exists {
                    probe.size_bytes
                } else {
                    0
                },
                allocated_bytes: if probe.exists {
                    probe.allocated_bytes
                } else {
                    None
                },
            },
        );
        i = i + 1;
    }
    VmEntry {
        name: cfg.name.clone(),
        profile_path: path.to_owned(),
        memory_mib: cfg.memory_mib,
        vcpus: cfg.vcpus,
        transport: cfg.transport,
        display: (cfg.display.width, cfg.display.height),
        network_interface: match &cfg.network {
            Some(n) => text::clone_opt(&n.interface),
            None => None,
        },
        disks,
        uefi: cfg.boot.mode == BootMode::Uefi,
    }
}

// ---------------------------------------------------------------------------
// Scanning
// ---------------------------------------------------------------------------

/// A profile file that could not be used, kept so the user is told why.
#[derive(Debug, PartialEq, Eq)]
pub struct ScanProblem {
    pub path: String,
    pub message: String,
}

impl Ranked for ScanProblem {
    open spec fn ranks_before(&self, other: &ScanProblem, host: Host) -> bool {
        paths::path_precedes(host, self.path@, other.path@)
    }

    fn before(&self, other: &ScanProblem, host: Host) -> (r: bool) {
        paths::before(host, &self.path, &other.path)
    }

    proof fn ranks_lawfully(a: &ScanProblem, b: &ScanProblem, c: &ScanProblem, host: Host) {
        paths::paths_rank(host, a.path@, b.path@, c.path@);
    }
}

/// What a scan of the machine directory found.
#[derive(Debug, PartialEq, Eq)]
pub struct Scan {
    pub vms: Vec<VmEntry>,
    pub problems: Vec<ScanProblem>,
    /// Every disk the profiles reference plus every loose image.
    pub disks: Vec<DiskRow>,
    /// Every saved session.
    pub snapshots: Vec<SnapshotRow>,
}

impl Default for Scan {
    fn default() -> (r: Scan)
        ensures
            r.vms@.len() == 0,
            r.problems@.len() == 0,
            r.disks@.len() == 0,
            r.snapshots@.len() == 0,
    {
        Scan { vms: Vec::new(), problems: Vec::new(), disks: Vec::new(), snapshots: Vec::new() }
    }
}

/// The extension of a profile.
pub const PROFILE_EXTENSION: &'static str = "toml";

/// The extension of a disk image.
pub const IMAGE_EXTENSION: &'static str = "raw";

/// Whether a directory entry is a machine profile.
pub fn is_profile(host: Host, path: &str, is_file: bool) -> (r: bool)
    ensures
        r == (is_file && paths::extension_is(host, path@, PROFILE_EXTENSION@)),
{
    is_file && paths::has_extension(host, path, PROFILE_EXTENSION)
}

/// Whether a directory entry is a disk image.
pub fn is_image(host: Host, path: &str, is_file: bool) -> (r: bool)
    ensures
        r == (is_file && paths::extension_is(host, path@, IMAGE_EXTENSION@)),
{
    is_file && paths::has_extension(host, path, IMAGE_EXTENSION)
}

/// What loading an entry of the machine directory gave.
#[derive(Debug, PartialEq, Eq)]
pub enum Loaded {
    /// It is of no interest.
    Nothing,
    Profile(Result<Machine, String>),
    Image(DiskFacts),
    Session(SnapshotRow),
}

/// One entry of the machine directory.
#[derive(Debug, PartialEq, Eq)]
pub enum DirEntry {
    /// The directory could not say what the entry is.
    Unlisted(String),
    /// What is there, and what loading it gave.
    Seen { path: String, is_file: bool, loaded: Loaded },
}

/// The entry is a file with that extension.
pub open spec fn is_file_with(host: Host, path: Seq<char>, is_file: bool, ext: Seq<char>) -> bool {
    is_file && paths::extension_is(host, path, ext)
}

impl DirEntry {
    /// A profile has been loaded with its disks, an image inspected and a session
    /// read.
    pub open spec fn wf(self, host: Host) -> bool {
        match self {
            DirEntry::Unlisted(_) => true,
            DirEntry::Seen { path, is_file, loaded } => {
                &&& is_file_with(host, path@, is_file, PROFILE_EXTENSION@) ==> (loaded matches
                    Loaded::Profile(p) && (p matches Ok(m) ==> m.facts@.len() == m.vm.disks@.len()))
                &&& is_file_with(host, path@, is_file, snapshots::EXTENSION@) ==> loaded is Session
                &&& is_file_with(host, path@, is_file, IMAGE_EXTENSION@) ==> loaded is Image
            },
        }
    }
}

/// A file of the machine directory, with what inspecting it found if it is an
/// image.
#[derive(Debug, PartialEq, Eq)]
pub struct DirFile {
    pub path: String,
    pub is_file: bool,
    pub facts: Option<DiskFacts>,
}

impl DirFile {
    pub open spec fn is_image(self, host: Host) -> bool {
        is_file_with(host, self.path@, self.is_file, IMAGE_EXTENSION@)
    }

    /// An image has been inspected.
    pub open spec fn wf(self, host: Host) -> bool {
        self.is_image(host) ==> self.facts is Some
    }
}

/// What one entry of the machine directory came to.
#[derive(Debug, PartialEq, Eq)]
pub enum Listed {
    /// The directory could not say what the entry is.
    Unlisted(String),
    /// A profile that was read.
    Machine(Machine),
    /// A profile that could not be used.
    Broken(ScanProblem),
    /// A saved session.
    Session(SnapshotRow),
    /// Anything else.
    File(DirFile),
}

/// What an entry comes to.
pub open spec fn outcome_of(host: Host, entry: DirEntry) -> Option<Listed> {
    match entry {
        DirEntry::Unlisted(message) => Some(Listed::Unlisted(message)),
        DirEntry::Seen { path, is_file, loaded } => if is_file_with(
            host,
            path@,
            is_file,
            PROFILE_EXTENSION@,
        ) {
            match loaded {
                Loaded::Profile(Ok(machine)) => Some(Listed::Machine(machine)),
                Loaded::Profile(Err(message)) => Some(
                    Listed::Broken(ScanProblem { path, message }),
                ),
                _ => None,
            }
        } else if is_file_with(host, path@, is_file, snapshots::EXTENSION@) {
            match loaded {
                Loaded::Session(row) => Some(Listed::Session(row)),
                _ => None,
            }
        } else {
            Some(
                Listed::File(
                    DirFile {
                        path,
                        is_file,
                        facts: match loaded {
                            Loaded::Image(facts) => Some(facts),
                            _ => None,
                        },
                    },
                ),
            )
        },
    }
}

/// What the entries of a directory come to, in their order.
pub open spec fn listing_of(host: Host, entries: Seq<DirEntry>) -> Seq<Listed>
    decreases entries.len(),
{
    if entries.len() == 0 {
        Seq::empty()
    } else {
        (match outcome_of(host, entries[0]) {
            Some(listed) => seq![listed],
            None => Seq::<Listed>::empty(),
        }) + listing_of(host, entries.drop_first())
    }
}

/// The parts of a listing are in shape.
pub open spec fn listed_wf(host: Host, list: Seq<Listed>) -> bool {
    forall|i: int|
        0 <= i < list.len() ==> match #[trigger] list[i] {
            Listed::Machine(m) => m.facts@.len() == m.vm.disks@.len(),
            Listed::File(f) => f.wf(host),
            _ => true,
        }
}

fn outcome(host: Host, entry: DirEntry) -> (r: Option<Listed>)
    ensures
        r == outcome_of(host, entry),
{
    match entry {
        DirEntry::Unlisted(message) => Some(Listed::Unlisted(message)),
        DirEntry::Seen { path, is_file, loaded } => {
            if is_profile(host, &path, is_file) {
                match loaded {
                    Loaded::Profile(Ok(machine)) => Some(Listed::Machine(machine)),
                    Loaded::Profile(Err(message)) => Some(
                        Listed::Broken(ScanProblem { path, message }),
                    ),
                    _ => None,
                }
            } else if snapshots::is_session(host, &path, is_file) {
                match loaded {
                    Loaded::Session(row) => Some(Listed::Session(row)),
                    _ => None,
                }
            } else {
                let facts = match loaded {
                    Loaded::Image(facts) => Some(facts),
                    _ => None,
                };
                Some(Listed::File(DirFile { path, is_file, facts }))
            }
        },
    }
}

/// What the entries of a directory come to, in their order.
pub fn listing(host: Host, entries: Vec<DirEntry>) -> (r: Vec<Listed>)
    requires
        forall|i: int| 0 <= i < entries@.len() ==> (#[trigger] entries@[i]).wf(host),
    ensures
        r@ == listing_of(host, entries@),
        listed_wf(host, r@),
{
    let ghost all = listing_of(host, entries@);
    let mut rest = entries;
    let mut r: Vec<Listed> = Vec::new();
    assert(r@ + all =~= all);
    while rest.len() > 0
        invariant
            r@ + listing_of(host, rest@) == all,
            listed_wf(host, r@),
            forall|i: int| 0 <= i < rest@.len() ==> (#[trigger] rest@[i]).wf(host),
        decreases rest@.len(),
    {
        let ghost had = r@;
        let ghost before = rest@;
        let entry = rest.remove(0);
        proof {
            assert(before[0].wf(host));
            assert(rest@ =~= before.drop_first());
            assert forall|i: int| 0 <= i < rest@.len() implies (#[trigger] rest@[i]).wf(host) by {
                assert(rest@[i] == before[i + 1]);
            }
        }
        if let Some(listed) = outcome(host, entry) {
            r.push(listed);
        }
        assert(r@ + listing_of(host, rest@) =~= had + listing_of(host, before));
    }
    assert(r@ + listing_of(host, rest@) =~= r@);
    r
}

/// The machines of a listing, in its order.
pub open spec fn machines_of(list: Seq<Listed>) -> Seq<Machine>
    decreases list.len(),
{
    if list.len() == 0 {
        Seq::empty()
    } else {
        (match list[0] {
            Listed::Machine(m) => seq![m],
            _ => Seq::<Machine>::empty(),
        }) + machines_of(list.drop_first())
    }
}

/// The saved sessions of a listing, in its order.
pub open spec fn sessions_of(list: Seq<Listed>) -> Seq<SnapshotRow>
    decreases list.len(),
{
    if list.len() == 0 {
        Seq::empty()
    } else {
        (match list[0] {
            Listed::Session(row) => seq![row],
            _ => Seq::<SnapshotRow>::empty(),
        }) + sessions_of(list.drop_first())
    }
}

/// The other files of a listing, in its order.
pub open spec fn files_of(list: Seq<Listed>) -> Seq<DirFile>
    decreases list.len(),
{
    if list.len() == 0 {
        Seq::empty()
    } else {
        (match list[0] {
            Listed::File(f) => seq![f],
            _ => Seq::<DirFile>::empty(),
        }) + files_of(list.drop_first())
    }
}

/// The problems of a listing as path and message, in its order; an entry that
/// could not be listed counts against the directory.
pub open spec fn problems_of(list: Seq<Listed>, vm_dir: Seq<char>) -> Seq<(Seq<char>, Seq<char>)>
    decreases list.len(),
{
    if list.len() == 0 {
        Seq::empty()
    } else {
        (match list[0] {
            Listed::Broken(p) => seq![(p.path@, p.message@)],
            Listed::Unlisted(message) => seq![(vm_dir, message@)],
            _ => Seq::<(Seq<char>, Seq<char>)>::empty(),
        }) + problems_of(list.drop_first(), vm_dir)
    }
}

/// Problems as path and message.
pub open spec fn problem_texts(list: Seq<ScanProblem>) -> Seq<(Seq<char>, Seq<char>)> {
    list.map_values(|p: ScanProblem| (p.path@, p.message@))
}

proof fn lemma_listings(a: Seq<Listed>, b: Seq<Listed>, vm_dir: Seq<char>)
    ensures
        machines_of(a + b) == machines_of(a) + machines_of(b),
        problems_of(a + b, vm_dir) == problems_of(a, vm_dir) + problems_of(b, vm_dir),
    decreases a.len(),
{
    if a.len() == 0 {
        assert(a + b =~= b);
    } else {
        lemma_listings(a.drop_first(), b, vm_dir);
        assert((a + b).drop_first() =~= a.drop_first() + b);
        assert((a + b)[0] == a[0]);
    }
}

/// An entry that is no readable profile takes no machine out of a scan, wherever
/// it stands in the directory. A profile that could not be used, and an entry
/// that could not be listed, is one more problem; anything else is none.
pub proof fn broken_profiles_hide_nothing(
    a: Seq<Listed>,
    entry: Listed,
    b: Seq<Listed>,
    vm_dir: Seq<char>,
)
    requires
        entry !is Machine,
    ensures
        machines_of(a + seq![entry] + b) == machines_of(a + b),
        problems_of(a + seq![entry] + b, vm_dir).len() == problems_of(a + b, vm_dir).len() + (if entry
            is Broken || entry is Unlisted {
            1int
        } else {
            0int
        }),
{
    let one = seq![entry];
    reveal_with_fuel(machines_of, 2);
    reveal_with_fuel(problems_of, 2);
    lemma_listings(a, b, vm_dir);
    lemma_listings(a + one, b, vm_dir);
    lemma_listings(a, one, vm_dir);
    assert(one.drop_first() =~= Seq::<Listed>::empty());
    assert(machines_of(one) =~= Seq::<Machine>::empty());
    assert(machines_of(a) + machines_of(one) =~= machines_of(a));
}

/// A listing taken apart.
struct Sorted {
    machines: Vec<Machine>,
    problems: Vec<ScanProblem>,
    sessions: Vec<SnapshotRow>,
    files: Vec<DirFile>,
}

impl Sorted {
    /// These are the parts of the listing, but for what `rest` still holds.
    spec fn parts(self, all: Seq<Listed>, rest: Seq<Listed>, vm_dir: Seq<char>) -> bool {
        &&& self.machines@ + machines_of(rest) == machines_of(all)
        &&& problem_texts(self.problems@) + problems_of(rest, vm_dir) == problems_of(all, vm_dir)
        &&& self.sessions@ + sessions_of(rest) == sessions_of(all)
        &&& self.files@ + files_of(rest) == files_of(all)
    }

    spec fn wf(self, host: Host) -> bool {
        &&& forall|i: int|
            0 <= i < self.machines@.len() ==> (#[trigger] self.machines@[i]).facts@.len()
                == self.machines@[i].vm.disks@.len()
        &&& forall|i: int| 0 <= i < self.files@.len() ==> (#[trigger] self.files@[i]).wf(host)
    }
}

fn taken_apart(host: Host, list: Vec<Listed>, vm_dir: &str) -> (r: Sorted)
    requires
        listed_wf(host, list@),
    ensures
        r.machines@ == machines_of(list@),
        problem_texts(r.problems@) == problems_of(list@, vm_dir@),
        r.sessions@ == sessions_of(list@),
        r.files@ == files_of(list@),
        r.wf(host),
{
    let ghost all = list@;
    let mut rest = list;
    let mut r = Sorted {
        machines: Vec::new(),
        problems: Vec::new(),
        sessions: Vec::new(),
        files: Vec::new(),
    };
    proof {
        assert(r.machines@ + machines_of(rest@) =~= machines_of(all));
        assert(problem_texts(r.problems@) + problems_of(rest@, vm_dir@) =~= problems_of(
            all,
            vm_dir@,
        ));
        assert(r.sessions@ + sessions_of(rest@) =~= sessions_of(all));
        assert(r.files@ + files_of(rest@) =~= files_of(all));
    }
    while rest.len() > 0
        invariant
            r.parts(all, rest@, vm_dir@),
            r.wf(host),
            listed_wf(host, rest@),
        decreases rest@.len(),
    {
        let ghost before = rest@;
        let ghost had = r;
        let first = rest.remove(0);
        proof {
            assert(rest@ =~= before.drop_first());
            assert(first == before[0]);
            assert forall|i: int| 0 <= i < rest@.len() implies match #[trigger] rest@[i] {
                Listed::Machine(m) => m.facts@.len() == m.vm.disks@.len(),
                Listed::File(f) => f.wf(host),
                _ => true,
            } by {
                assert(rest@[i] == before[i + 1]);
            }
        }
        match first {
            Listed::Machine(m) => r.machines.push(m),
            Listed::Broken(p) => {
                r.problems.push(p);
                assert(problem_texts(r.problems@) =~= problem_texts(had.problems@).push(
                    (p.path@, p.message@),
                ));
            },
            Listed::Unlisted(message) => {
                let ghost m = message@;
                r.problems.push(ScanProblem { path: vm_dir.to_owned(), message });
                assert(problem_texts(r.problems@) =~= problem_texts(had.problems@).push(
                    (vm_dir@, m),
                ));
            },
            Listed::Session(row) => r.sessions.push(row),
            Listed::File(f) => r.files.push(f),
        }
        proof {
            assert(r.machines@ + machines_of(rest@) =~= had.machines@ + machines_of(before));
            assert(problem_texts(r.problems@) + problems_of(rest@, vm_dir@) =~= problem_texts(
                had.problems@,
            ) + problems_of(before, vm_dir@));
            assert(r.sessions@ + sessions_of(rest@) =~= had.sessions@ + sessions_of(before));
            assert(r.files@ + files_of(rest@) =~= had.files@ + files_of(before));
        }
    }
    proof {
        assert(r.machines@ + machines_of(rest@) =~= r.machines@);
        assert(problem_texts(r.problems@) + problems_of(rest@, vm_dir@) =~= problem_texts(
            r.problems@,
        ));
        assert(r.sessions@ + sessions_of(rest@) =~= r.sessions@);
        assert(r.files@ + files_of(rest@) =~= r.files@);
    }
    r
}

fn split_machines(machines: Vec<Machine>) -> (r: (Vec<VmEntry>, Vec<Vec<DiskFacts>>))
    ensures
        r.0@ == vms_of(machines@),
        r.1@ == facts_of(machines@),
{
    let ghost all = machines@;
    let mut rest = machines;
    let mut vms: Vec<VmEntry> = Vec::new();
    let mut facts: Vec<Vec<DiskFacts>> = Vec::new();
    assert(all.skip(0) =~= all);
    while rest.len() > 0
        invariant
            rest@.len() <= all.len(),
            rest@ == all.skip(all.len() - rest@.len()),
            vms@ == vms_of(all.take(all.len() - rest@.len())),
            facts@ == facts_of(all.take(all.len() - rest@.len())),
        decreases rest@.len(),
    {
        let ghost n = all.len() - rest@.len();
        let m = rest.remove(0);
        proof {
            assert(rest@ =~= all.skip(n + 1));
            assert(m == all[n as int]);
            assert(all.take(n + 1) =~= all.take(n as int).push(m));
        }
        vms.push(m.vm);
        facts.push(m.facts);
        assert(vms@ =~= vms_of(all.take(n + 1)));
        assert(facts@ =~= facts_of(all.take(n + 1)));
    }
    assert(all.take(all.len() as int) =~= all);
    (vms, facts)
}

/// `r` is the scan of a directory with that listing: the loaded profiles by name,
/// the others by path as problems, the disks that the machines reference and the
/// loose images as rows, and the saved sessions, newest first.
pub open spec fn is_scan(host: Host, vm_dir: Seq<char>, list: Seq<Listed>, r: Scan) -> bool {
    let machines = sorting::sorted_of(host, machines_of(list));
    &&& r.vms@ == vms_of(machines)
    &&& exists|problems: Seq<ScanProblem>| #[trigger]
        problem_texts(problems) == problems_of(list, vm_dir) && r.problems@ == sorting::sorted_of(
            host,
            problems,
        )
    &&& rows_shown(host, refs_of(host, r.vms@, facts_of(machines), files_of(list)), r.disks@)
    &&& r.snapshots@ == sorting::sorted_of(host, sessions_of(list))
}

/// Scans the entries of the machine directory. One broken profile never fails the
/// scan; only a directory that cannot be read does.
pub fn scan(host: Host, vm_dir: &str, entries: Result<Vec<DirEntry>, String>) -> (r: Result<
    Scan,
    DiscoveryError,
>)
    requires
        entries matches Ok(list) ==> forall|i: int|
            0 <= i < list@.len() ==> (#[trigger] list@[i]).wf(host),
    ensures
        match entries {
            Ok(list) => r matches Ok(scan) && is_scan(host, vm_dir@, listing_of(host, list@), scan),
            Err(e) => r matches Err(DiscoveryError::ReadDir { path, source }) && path@ == vm_dir@
                && source == e,
        },
{
    let entries = match entries {
        Ok(entries) => entries,
        Err(source) => {
            return Err(DiscoveryError::ReadDir { path: vm_dir.to_owned(), source });
        },
    };
    let list = listing(host, entries);
    let ghost all = list@;
    let parts = taken_apart(host, list, vm_dir);
    let ghost found = parts.problems@;
    let machines = sorting::sort(host, parts.machines);
    proof {
        assert forall|i: int| 0 <= i < machines@.len() implies (
        #[trigger] machines@[i]).facts@.len() == machines@[i].vm.disks@.len() by {
            lemma_sorted_from(host, parts.machines@, i);
        }
    }
    let (vms, facts) = split_machines(machines);
    let disks = disk_rows(host, &vms, facts, parts.files);
    let r = Scan {
        vms,
        problems: sorting::sort(host, parts.problems),
        disks,
        snapshots: snapshots::snapshot_rows(host, parts.sessions),
    };
    assert(problem_texts(found) == problems_of(all, vm_dir@) && r.problems@ == sorting::sorted_of(
        host,
        found,
    ));
    Ok(r)
}

/// What is sorted was there before.
proof fn lemma_sorted_from(host: Host, machines: Seq<Machine>, i: int)
    requires
        0 <= i < sorting::sorted_of(host, machines).len(),
    ensures
        exists|k: int|
            0 <= k < machines.len() && machines[k] == sorting::sorted_of(host, machines)[i],
{
    broadcast use vstd::seq_lib::group_to_multiset_ensures;

    let out = sorting::sorted_of(host, machines);
    sorting::sorting_permutes(host, machines);
    assert(out.contains(out[i]));
    assert(out.to_multiset().count(out[i]) > 0);
    assert(machines.contains(out[i]));
}

// ---------------------------------------------------------------------------
// Deleting a machine
// ---------------------------------------------------------------------------

/// Files a delete would remove, in order. Disks outside the machine directory
/// are left alone: a profile may point at a shared base image.
#[derive(Debug, PartialEq, Eq)]
pub struct DeletePlan {
    pub remove: Vec<String>,
    pub kept_outside_vm_dir: Vec<String>,
}

impl Clone for DeletePlan {
    fn clone(&self) -> (r: DeletePlan)
        ensures
            r.remove@ == self.remove@,
            r.kept_outside_vm_dir@ == self.kept_outside_vm_dir@,
    {
        DeletePlan {
            remove: text::clone_list(&self.remove),
            kept_outside_vm_dir: text::clone_list(&self.kept_outside_vm_dir),
        }
    }
}

/// Which byproducts of a machine are on disk.
#[derive(Debug, Clone, Copy, PartialEq, Eq)]
pub struct Byproducts {
    pub install_log: bool,
    pub run_log: bool,
    pub install_initrd: bool,
    /// Its saved session, which is useless once the disks are gone.
    pub session: bool,
}

/// The existing disks that lie in the machine directory, or outside of it.
pub open spec fn disks_where(host: Host, disks: Seq<DiskInfo>, vm_dir: Seq<char>, inside: bool) -> Seq<
    Seq<char>,
>
    decreases disks.len(),
{
    if disks.len() == 0 {
        Seq::empty()
    } else {
        let init = disks_where(host, disks.drop_last(), vm_dir, inside);
        let last = disks.last();
        if last.exists && paths::lies_under(host, last.resolved@, vm_dir) == inside {
            init.push(last.resolved@)
        } else {
            init
        }
    }
}

/// A file of the machine in the machine directory.
pub open spec fn vm_file(host: Host, vm_dir: Seq<char>, name: Seq<char>, suffix: Seq<char>) -> Seq<
    char,
> {
    paths::joined(host, vm_dir, name + suffix)
}

/// The byproducts that are there, in the order they are removed.
pub open spec fn byproducts_of(host: Host, entry: VmEntry, vm_dir: Seq<char>, there: Byproducts) -> Seq<
    Seq<char>,
> {
    let none = Seq::<Seq<char>>::empty();
    (if there.install_log {
        seq![vm_file(host, vm_dir, entry.name@, "-install.log"@)]
    } else {
        none
    }) + (if there.run_log {
        seq![vm_file(host, vm_dir, entry.name@, "-run.log"@)]
    } else {
        none
    }) + (if there.install_initrd {
        seq![vm_file(host, vm_dir, entry.name@, ".install-initrd.img"@)]
    } else {
        none
    }) + (if there.session {
        seq![snapshots::path_of(host, entry)]
    } else {
        none
    })
}

/// What a delete would remove.
pub open spec fn removals_of(host: Host, entry: VmEntry, vm_dir: Seq<char>, there: Byproducts) -> Seq<
    Seq<char>,
> {
    seq![entry.profile_path@] + disks_where(host, entry.disks@, vm_dir, true) + byproducts_of(
        host,
        entry,
        vm_dir,
        there,
    )
}

/// What a delete would remove and what it would leave.
pub fn plan_delete(host: Host, entry: &VmEntry, vm_dir: &str, there: Byproducts) -> (r: DeletePlan)
    ensures
        text::texts(r.remove@) == removals_of(host, *entry, vm_dir@, there),
        text::texts(r.kept_outside_vm_dir@) == disks_where(host, entry.disks@, vm_dir@, false),
        text::texts(r.remove@).contains(entry.profile_path@),
        there.session ==> text::texts(r.remove@).contains(snapshots::path_of(host, *entry)),
        there.install_log ==> text::texts(r.remove@).contains(
            paths::joined(host, vm_dir@, entry.name@ + "-install.log"@),
        ),
        there.run_log ==> text::texts(r.remove@).contains(
            paths::joined(host, vm_dir@, entry.name@ + "-run.log"@),
        ),
        there.install_initrd ==> text::texts(r.remove@).contains(
            paths::joined(host, vm_dir@, entry.name@ + ".install-initrd.img"@),
        ),
        forall|i: int|
            0 <= i < entry.disks@.len() && (#[trigger] entry.disks@[i]).exists
                ==> if paths::lies_under(host, entry.disks@[i].resolved@, vm_dir@) {
                text::texts(r.remove@).contains(entry.disks@[i].resolved@)
            } else {
                text::texts(r.kept_outside_vm_dir@).contains(entry.disks@[i].resolved@)
            },
{
    let mut remove: Vec<String> = Vec::new();
    let mut kept: Vec<String> = Vec::new();
    remove.push(entry.profile_path.clone());
    let mut i: usize = 0;
    let ghost head = seq![entry.profile_path@];
    proof {
        assert(text::texts(remove@) =~= head + disks_where(
            host,
            entry.disks@.take(0),
            vm_dir@,
            true,
        ));
        assert(text::texts(kept@) =~= disks_where(host, entry.disks@.take(0), vm_dir@, false));
    }
    while i < entry.disks.len()
        invariant
            i <= entry.disks@.len(),
            head == seq![entry.profile_path@],
            text::texts(remove@) == head + disks_where(
                host,
                entry.disks@.take(i as int),
                vm_dir@,
                true,
            ),
            text::texts(kept@) == disks_where(host, entry.disks@.take(i as int), vm_dir@, false),
        decreases entry.disks@.len() - i,
    {
        let ghost gone = text::texts(remove@);
        let ghost left = text::texts(kept@);
        proof {
            assert(entry.disks@.take(i + 1).drop_last() =~= entry.disks@.take(i as int));
            assert(entry.disks@.take(i + 1).last() == entry.disks@[i as int]);
        }
        let disk = &entry.disks[i];
        if disk.exists {
            if paths::under(host, &disk.resolved, vm_dir) {
                remove.push(disk.resolved.clone());
                assert(text::texts(remove@) =~= gone.push(disk.resolved@));
                assert(text::texts(remove@) =~= head + disks_where(
                    host,
                    entry.disks@.take(i + 1),
                    vm_dir@,
                    true,
                ));
            } else {
                kept.push(disk.resolved.clone());
                assert(text::texts(kept@) =~= left.push(disk.resolved@));
            }
        }
        i = i + 1;
    }
    proof {
        assert(entry.disks@.take(i as int) =~= entry.disks@);
    }
    let ghost base = text::texts(remove@);
    if there.install_log {
        remove.push(paths::join(host, vm_dir, &text::cat(&entry.name, "-install.log")));
    }
    if there.run_log {
        remove.push(paths::join(host, vm_dir, &text::cat(&entry.name, "-run.log")));
    }
    if there.install_initrd {
        remove.push(paths::join(host, vm_dir, &text::cat(&entry.name, ".install-initrd.img")));
    }
    if there.session {
        remove.push(snapshots::path_for(host, entry));
    }
    proof {
        assert(text::texts(remove@) =~= base + byproducts_of(host, *entry, vm_dir@, there));
        let all = removals_of(host, *entry, vm_dir@, there);
        assert(text::texts(remove@) =~= all);
        let name = entry.name@;
        deletes::a_delete_takes_all_of_the_machine(host, *entry, vm_dir@, there, entry.profile_path@);
        deletes::a_delete_takes_all_of_the_machine(
            host,
            *entry,
            vm_dir@,
            there,
            snapshots::path_of(host, *entry),
        );
        deletes::a_delete_takes_all_of_the_machine(
            host,
            *entry,
            vm_dir@,
            there,
            paths::joined(host, vm_dir@, name + "-install.log"@),
        );
        deletes::a_delete_takes_all_of_the_machine(
            host,
            *entry,
            vm_dir@,
            there,
            paths::joined(host, vm_dir@, name + "-run.log"@),
        );
        deletes::a_delete_takes_all_of_the_machine(
            host,
            *entry,
            vm_dir@,
            there,
            paths::joined(host, vm_dir@, name + ".install-initrd.img"@),
        );
        assert forall|i: int| 0 <= i < entry.disks@.len() && (#[trigger] entry.disks@[i]).exists
            implies if paths::lies_under(host, entry.disks@[i].resolved@, vm_dir@) {
            all.contains(entry.disks@[i].resolved@)
        } else {
            text::texts(kept@).contains(entry.disks@[i].resolved@)
        } by {
            let path = entry.disks@[i].resolved@;
            deletes::a_delete_takes_all_of_the_machine(host, *entry, vm_dir@, there, path);
            deletes::a_delete_keeps_what_lies_elsewhere(host, *entry, vm_dir@, path);
        }
    }
    DeletePlan { remove, kept_outside_vm_dir: kept }
}

/// Plans the deletion of a machine, or refuses it: a running machine is never
/// deleted, and the user must type its name.
pub fn delete(
    host: Host,
    entry: &VmEntry,
    vm_dir: &str,
    there: Byproducts,
    busy: bool,
    typed_name: &str,
) -> (r: Result<DeletePlan, DeleteError>)
    ensures
        match r {
            Ok(plan) => {
                &&& !busy
                &&& text::trim_of(typed_name@) == entry.name@
                &&& text::texts(plan.remove@) == removals_of(host, *entry, vm_dir@, there)
                &&& text::texts(plan.kept_outside_vm_dir@) == disks_where(
                    host,
                    entry.disks@,
                    vm_dir@,
                    false,
                )
            },
            Err(DeleteError::Busy(name)) => busy && name == entry.name,
            Err(DeleteError::NameMismatch(name)) => !busy && text::trim_of(typed_name@)
                != entry.name@ && name == entry.name,
            Err(DeleteError::Remove { .. }) => false,
        },
{
    if busy {
        return Err(DeleteError::Busy(entry.name.clone()));
    }
    if !text::same(&text::trim(typed_name), &entry.name) {
        return Err(DeleteError::NameMismatch(entry.name.clone()));
    }
    Ok(plan_delete(host, entry, vm_dir, there))
}

/// What removing one file gave.
#[derive(Debug, PartialEq, Eq)]
pub enum Removal {
    Removed,
    /// It was already gone.
    Missing,
    Failed(String),
}

/// The first removal that failed.
pub open spec fn first_failure(results: Seq<Removal>, i: int) -> bool {
    &&& 0 <= i < results.len()
    &&& results[i] is Failed
    &&& forall|j: int| 0 <= j < i ==> !(#[trigger] results[j] is Failed)
}

/// The results tell of every file, or of those up to one that could not be
/// removed.
pub open spec fn covers(results: Seq<Removal>, files: nat) -> bool {
    &&& results.len() <= files
    &&& results.len() == files || exists|i: int| first_failure(results, i)
}

/// The files that were removed, in order.
pub open spec fn removed_of(paths: Seq<String>, results: Seq<Removal>) -> Seq<String>
    decreases results.len(),
{
    if results.len() == 0 {
        Seq::empty()
    } else {
        let init = removed_of(paths, results.drop_last());
        if results.last() is Removed {
            init.push(paths[results.len() - 1])
        } else {
            init
        }
    }
}

/// What came of removing files one after the other, up to the first failure.
pub fn deleted(paths: &Vec<String>, results: &Vec<Removal>) -> (r: Result<Vec<String>, DeleteError>)
    requires
        covers(results@, paths@.len()),
    ensures
        match r {
            Ok(removed) => {
                &&& results@.len() == paths@.len()
                &&& forall|i: int| 0 <= i < results@.len() ==> !(#[trigger] results@[i] is Failed)
                &&& removed@ == removed_of(paths@, results@)
            },
            Err(e) => exists|i: int| #[trigger]
                first_failure(results@, i) && (e matches DeleteError::Remove { path, source } && path
                    == paths@[i] && results@[i] == Removal::Failed(source)),
        },
{
    let mut removed: Vec<String> = Vec::new();
    let mut i: usize = 0;
    while i < results.len()
        invariant
            results@.len() <= paths@.len(),
            i <= results@.len(),
            forall|j: int| 0 <= j < i ==> !(#[trigger] results@[j] is Failed),
            removed@ == removed_of(paths@, results@.take(i as int)),
        decreases results@.len() - i,
    {
        proof {
            assert(results@.take(i + 1).drop_last() =~= results@.take(i as int));
            assert(results@.take(i + 1).last() == results@[i as int]);
        }
        match &results[i] {
            Removal::Removed => {
                removed.push(paths[i].clone());
            },
            Removal::Missing => {},
            Removal::Failed(source) => {
                assert(first_failure(results@, i as int));
                return Err(
                    DeleteError::Remove { path: paths[i].clone(), source: source.clone() },
                );
            },
        }
        i = i + 1;
    }
    assert(results@.take(i as int) =~= results@);
    Ok(removed)
}

/// A disk outside the machine directory is never among the files that a delete
/// removes for being a disk, and every disk it does remove lies inside.
pub proof fn deletes_stay_inside(host: Host, disks: Seq<DiskInfo>, vm_dir: Seq<char>)
    ensures
        forall|i: int|
            0 <= i < disks_where(host, disks, vm_dir, true).len() ==> paths::lies_under(
                host,
                #[trigger] disks_where(host, disks, vm_dir, true)[i],
                vm_dir,
            ),
        forall|i: int|
            0 <= i < disks_where(host, disks, vm_dir, false).len() ==> !paths::lies_under(
                host,
                #[trigger] disks_where(host, disks, vm_dir, false)[i],
                vm_dir,
            ),
    decreases disks.len(),
{
    if disks.len() > 0 {
        let init = disks.drop_last();
        deletes_stay_inside(host, init, vm_dir);
        let inside = disks_where(host, disks, vm_dir, true);
        let outside = disks_where(host, disks, vm_dir, false);
        assert forall|i: int| 0 <= i < inside.len() implies paths::lies_under(
            host,
            #[trigger] inside[i],
            vm_dir,
        ) by {
            let before = disks_where(host, init, vm_dir, true);
            if i < before.len() {
                assert(inside[i] == before[i]);
            }
        }
        assert forall|i: int| 0 <= i < outside.len() implies !paths::lies_under(
            host,
            #[trigger] outside[i],
            vm_dir,
        ) by {
            let before = disks_where(host, init, vm_dir, false);
            if i < before.len() {
                assert(outside[i] == before[i]);
            }
        }
    }
}

/// A disk outside the machine directory is spared by a delete, unless it is the
/// profile itself or one of the byproducts.
pub proof fn outside_disks_are_spared(
    host: Host,
    entry: VmEntry,
    vm_dir: Seq<char>,
    there: Byproducts,
    path: Seq<char>,
)
    requires
        !paths::lies_under(host, path, vm_dir),
        path != entry.profile_path@,
        !byproducts_of(host, entry, vm_dir, there).contains(path),
    ensures
        !removals_of(host, entry, vm_dir, there).contains(path),
{
    let inside = disks_where(host, entry.disks@, vm_dir, true);
    let rest = byproducts_of(host, entry, vm_dir, there);
    let all = removals_of(host, entry, vm_dir, there);
    deletes_stay_inside(host, entry.disks@, vm_dir);
    if all.contains(path) {
        let k = choose|k: int| 0 <= k < all.len() && all[k] == path;
        if 1 <= k < 1 + inside.len() {
            assert(all[k] == inside[k - 1]);
        } else if k >= 1 + inside.len() {
            assert(all[k] == rest[k - 1 - inside.len()]);
        }
    }
}

/// Rewrites memory and processors of a profile; `None` when they already are
/// what is asked for.
pub fn apply_resources(cfg: &VmConfig, memory_mib: u64, vcpus: u32) -> (r: Option<VmConfig>)
    ensures
        match r {
            Some(c) => {
                &&& cfg.memory_mib != memory_mib || cfg.vcpus != vcpus
                &&& c@ == (profile::ConfigView { memory_mib, vcpus, ..cfg@ })
            },
            None => cfg.memory_mib == memory_mib && cfg.vcpus == vcpus,
        },
{
    if cfg.memory_mib == memory_mib && cfg.vcpus == vcpus {
        return None;
    }
    let mut c = cfg.clone();
    c.memory_mib = memory_mib;
    c.vcpus = vcpus;
    Some(c)
}

// ---------------------------------------------------------------------------
// Disk rows
// ---------------------------------------------------------------------------

/// One profile that attaches a disk.
#[derive(Debug, PartialEq, Eq)]
pub struct DiskAttachment {
    pub vm: String,
    pub profile: String,
    /// The disk path exactly as written in the profile, which is what a detach
    /// goes by.
    pub declared: String,
    pub writable: bool,
}

impl Clone for DiskAttachment {
    fn clone(&self) -> (r: DiskAttachment)
        ensures
            r == *self,
    {
        DiskAttachment {
            vm: self.vm.clone(),
            profile: self.profile.clone(),
            declared: self.declared.clone(),
            writable: self.writable,
        }
    }
}

/// One row of the disks view.
#[derive(Debug, PartialEq, Eq)]
pub struct DiskRow {
    pub path: String,
    pub file_name: String,
    pub exists: bool,
    pub apparent_bytes: u64,
    pub allocated_bytes: Option<u64>,
    /// Machines whose profiles attach this disk.
    pub attachments: Vec<DiskAttachment>,
    /// A UEFI variable store sits next to the image.
    pub nvram: bool,
    /// Partition summary, or why the image could not be inspected.
    pub summary: Result<String, String>,
}

/// A copy of a result of texts.
pub fn clone_result(value: &Result<String, String>) -> (r: Result<String, String>)
    ensures
        r == *value,
{
    match value {
        Ok(s) => Ok(s.clone()),
        Err(s) => Err(s.clone()),
    }
}

/// A result of texts as plain values.
pub open spec fn result_text(value: Result<String, String>) -> Result<Seq<char>, Seq<char>> {
    match value {
        Ok(s) => Ok(s@),
        Err(s) => Err(s@),
    }
}

fn clone_attachments(list: &Vec<DiskAttachment>) -> (r: Vec<DiskAttachment>)
    ensures
        r@ == list@,
{
    let mut r: Vec<DiskAttachment> = Vec::new();
    let mut i: usize = 0;
    while i < list.len()
        invariant
            i <= list@.len(),
            r@ == list@.take(i as int),
        decreases list@.len() - i,
    {
        r.push(list[i].clone());
        i = i + 1;
    }
    assert(list@.take(i as int) =~= list@);
    r
}

impl Clone for DiskRow {
    fn clone(&self) -> (r: DiskRow)
        ensures
            r.attachments@ == self.attachments@,
            r == (DiskRow { attachments: r.attachments, ..*self }),
    {
        DiskRow {
            path: self.path.clone(),
            file_name: self.file_name.clone(),
            exists: self.exists,
            apparent_bytes: self.apparent_bytes,
            allocated_bytes: self.allocated_bytes,
            attachments: clone_attachments(&self.attachments),
            nvram: self.nvram,
            summary: clone_result(&self.summary),
        }
    }
}

impl Ranked for DiskRow {
    open spec fn ranks_before(&self, other: &DiskRow, host: Host) -> bool {
        text::precedes(self.file_name@, other.file_name@) || (self.file_name@ == other.file_name@
            && paths::path_precedes(host, self.path@, other.path@))
    }

    fn before(&self, other: &DiskRow, host: Host) -> (r: bool) {
        text::before(&self.file_name, &other.file_name) || (text::same(
            &self.file_name,
            &other.file_name,
        ) && paths::before(host, &self.path, &other.path))
    }

    proof fn ranks_lawfully(a: &DiskRow, b: &DiskRow, c: &DiskRow, host: Host) {
        lemma_texts_rank(a.file_name@, b.file_name@, c.file_name@);
        paths::paths_rank(host, a.path@, b.path@, c.path@);
        text::order_is_total(a.file_name@, b.file_name@);
        text::order_is_total(b.file_name@, c.file_name@);
        text::order_is_total(a.file_name@, c.file_name@);
    }
}

/// What inspecting an image found.
#[derive(Debug, PartialEq, Eq)]
pub struct DiskFacts {
    /// The canonical path, where there is one.
    pub canonical: Option<String>,
    pub exists: bool,
    pub apparent_bytes: u64,
    pub allocated_bytes: Option<u64>,
    pub nvram: bool,
    pub summary: Result<String, String>,
}

/// One mention of an image: by a profile, or by lying in the machine directory.
#[derive(Debug, PartialEq, Eq)]
pub struct DiskRef {
    pub path: String,
    pub attachment: Option<DiskAttachment>,
    pub facts: DiskFacts,
}

/// What tells two images apart: the canonical path, or else the path itself,
/// since a missing image has no other.
pub open spec fn identity_of(r: DiskRef) -> Seq<char> {
    match r.facts.canonical {
        Some(path) => path@,
        None => r.path@,
    }
}

fn identity(r: &DiskRef) -> (id: String)
    ensures
        id@ == identity_of(*r),
{
    match &r.facts.canonical {
        Some(path) => path.clone(),
        None => r.path.clone(),
    }
}

/// A disk row as plain values.
pub ghost struct RowView {
    pub path: Seq<char>,
    pub file_name: Seq<char>,
    pub exists: bool,
    pub apparent_bytes: u64,
    pub allocated_bytes: Option<u64>,
    pub attachments: Seq<DiskAttachment>,
    pub nvram: bool,
    pub summary: Result<Seq<char>, Seq<char>>,
}

impl View for DiskRow {
    type V = RowView;

    open spec fn view(&self) -> RowView {
        RowView {
            path: self.path@,
            file_name: self.file_name@,
            exists: self.exists,
            apparent_bytes: self.apparent_bytes,
            allocated_bytes: self.allocated_bytes,
            attachments: self.attachments@,
            nvram: self.nvram,
            summary: result_text(self.summary),
        }
    }
}

/// Disk rows as plain values.
pub open spec fn row_views(rows: Seq<DiskRow>) -> Seq<RowView> {
    rows.map_values(|r: DiskRow| r@)
}

/// The file name a row shows: the whole path where it has none.
pub open spec fn shown_name(host: Host, path: Seq<char>) -> Seq<char> {
    match paths::file_name_of(host, path) {
        Some(name) => name,
        None => path,
    }
}

/// The file name a row shows.
pub fn show_name(host: Host, path: &str) -> (r: String)
    ensures
        r@ == shown_name(host, path@),
{
    match paths::file_name(host, path) {
        Some(name) => name,
        None => path.to_owned(),
    }
}

/// The row for an image that was not mentioned before.
pub open spec fn row_of(host: Host, r: DiskRef) -> RowView {
    RowView {
        path: r.path@,
        file_name: shown_name(host, r.path@),
        exists: r.facts.exists,
        apparent_bytes: if r.facts.exists {
            r.facts.apparent_bytes
        } else {
            0
        },
        allocated_bytes: if r.facts.exists {
            r.facts.allocated_bytes
        } else {
            None
        },
        attachments: match r.attachment {
            Some(a) => seq![a],
            None => Seq::empty(),
        },
        nvram: r.facts.nvram,
        summary: if r.facts.exists {
            result_text(r.facts.summary)
        } else {
            Err("the image file is missing"@)
        },
    }
}

/// The first position of a path that is `id`, or the length.
pub open spec fn position_of(host: Host, ids: Seq<Seq<char>>, id: Seq<char>) -> int
    decreases ids.len(),
{
    if ids.len() == 0 || paths::same_path(host, ids[0], id) {
        0
    } else {
        1 + position_of(host, ids.drop_first(), id)
    }
}

/// The rows that mentions come to, in the order of first mention, with the
/// identities they were told apart by.
pub open spec fn grouped(host: Host, refs: Seq<DiskRef>) -> (Seq<Seq<char>>, Seq<RowView>)
    decreases refs.len(),
{
    if refs.len() == 0 {
        (Seq::empty(), Seq::empty())
    } else {
        let (ids, rows) = grouped(host, refs.drop_last());
        let r = refs.last();
        let at = position_of(host, ids, identity_of(r));
        if at < ids.len() {
            match r.attachment {
                Some(a) => (
                    ids,
                    rows.update(
                        at,
                        RowView { attachments: rows[at].attachments.push(a), ..rows[at] },
                    ),
                ),
                None => (ids, rows),
            }
        } else {
            (ids.push(identity_of(r)), rows.push(row_of(host, r)))
        }
    }
}

proof fn lemma_position(host: Host, ids: Seq<Seq<char>>, id: Seq<char>)
    ensures
        0 <= position_of(host, ids, id) <= ids.len(),
        forall|j: int|
            0 <= j < position_of(host, ids, id) ==> !paths::same_path(host, #[trigger] ids[j], id),
    decreases ids.len(),
{
    if ids.len() > 0 && !paths::same_path(host, ids[0], id) {
        let rest = ids.drop_first();
        lemma_position(host, rest, id);
        assert forall|j: int| 0 <= j < position_of(host, ids, id) implies !paths::same_path(
            host,
            #[trigger] ids[j],
            id,
        ) by {
            if j > 0 {
                assert(rest[j - 1] == ids[j]);
            }
        }
    }
}

proof fn lemma_position_at(host: Host, ids: Seq<Seq<char>>, id: Seq<char>, k: int)
    requires
        0 <= k <= ids.len(),
        forall|j: int| 0 <= j < k ==> !paths::same_path(host, #[trigger] ids[j], id),
        k < ids.len() ==> paths::same_path(host, ids[k], id),
    ensures
        position_of(host, ids, id) == k,
    decreases ids.len(),
{
    if k > 0 {
        let rest = ids.drop_first();
        assert(!paths::same_path(host, ids[0], id));
        assert forall|j: int| 0 <= j < k - 1 implies !paths::same_path(
            host,
            #[trigger] rest[j],
            id,
        ) by {
            assert(rest[j] == ids[j + 1]);
        }
        lemma_position_at(host, rest, id, k - 1);
    }
}

/// What a profile says of one of its disks.
pub open spec fn attachment_of(vm: VmEntry, index: int) -> DiskAttachment {
    DiskAttachment {
        vm: vm.name,
        profile: vm.profile_path,
        declared: vm.disks@[index].declared,
        writable: vm.disks@[index].writable,
    }
}

/// The mention of a machine's disk.
pub open spec fn mention_of(vm: VmEntry, index: int, facts: DiskFacts) -> DiskRef {
    DiskRef {
        path: vm.disks@[index].resolved,
        attachment: Some(attachment_of(vm, index)),
        facts,
    }
}

/// The mention of a machine's disk.
pub fn reference(vm: &VmEntry, index: usize, facts: DiskFacts) -> (r: DiskRef)
    requires
        index < vm.disks@.len(),
    ensures
        r == mention_of(*vm, index as int, facts),
{
    let disk = &vm.disks[index];
    DiskRef {
        path: disk.resolved.clone(),
        attachment: Some(
            DiskAttachment {
                vm: vm.name.clone(),
                profile: vm.profile_path.clone(),
                declared: disk.declared.clone(),
                writable: disk.writable,
            },
        ),
        facts,
    }
}

/// The mentions of a machine's disks, in their order.
pub open spec fn mentions_of(vm: VmEntry, facts: Seq<DiskFacts>) -> Seq<DiskRef> {
    Seq::new(vm.disks@.len(), |j: int| mention_of(vm, j, facts[j]))
}

/// The mentions of every disk of every machine, in their order.
pub open spec fn machine_refs(vms: Seq<VmEntry>, facts: Seq<Vec<DiskFacts>>) -> Seq<DiskRef>
    decreases vms.len(),
{
    if vms.len() == 0 {
        Seq::empty()
    } else {
        machine_refs(vms.drop_last(), facts) + mentions_of(vms.last(), facts[vms.len() - 1]@)
    }
}

/// The mentions of the images among the files, in their order.
pub open spec fn image_refs(host: Host, files: Seq<DirFile>) -> Seq<DiskRef>
    decreases files.len(),
{
    if files.len() == 0 {
        Seq::empty()
    } else {
        let init = image_refs(host, files.drop_last());
        let f = files.last();
        if f.is_image(host) {
            init.push(image_ref(f))
        } else {
            init
        }
    }
}

/// Everything that mentions an image: each disk of each machine, and after them
/// the images that lie in the machine directory.
pub open spec fn refs_of(
    host: Host,
    vms: Seq<VmEntry>,
    facts: Seq<Vec<DiskFacts>>,
    files: Seq<DirFile>,
) -> Seq<DiskRef> {
    machine_refs(vms, facts) + image_refs(host, files)
}

/// Adds the mentions of one machine's disks.
fn mention_disks(refs: &mut Vec<DiskRef>, vm: &VmEntry, facts: Vec<DiskFacts>)
    requires
        facts@.len() == vm.disks@.len(),
    ensures
        final(refs)@ == old(refs)@ + mentions_of(*vm, facts@),
{
    let ghost all = facts@;
    let ghost had = refs@;
    let mut rest = facts;
    let mut j: usize = 0;
    proof {
        assert(refs@ =~= had + mentions_of(*vm, all).take(0));
        assert(all.skip(0) =~= all);
    }
    while j < vm.disks.len()
        invariant
            j <= vm.disks@.len(),
            all.len() == vm.disks@.len(),
            rest@ == all.skip(j as int),
            refs@ == had + mentions_of(*vm, all).take(j as int),
        decreases vm.disks@.len() - j,
    {
        let ghost whole = mentions_of(*vm, all);
        let fact = rest.remove(0);
        assert(fact == all[j as int]);
        assert(rest@ =~= all.skip(j + 1));
        refs.push(reference(vm, j, fact));
        assert(refs@ =~= had + whole.take(j + 1));
        j = j + 1;
    }
    assert(mentions_of(*vm, all).take(j as int) =~= mentions_of(*vm, all));
}

/// Gathers everything that mentions an image: each disk of each machine, in
/// order, with what inspecting it found, and after them the images among the
/// files of the machine directory.
pub fn disk_refs(
    host: Host,
    vms: &Vec<VmEntry>,
    facts: Vec<Vec<DiskFacts>>,
    files: Vec<DirFile>,
) -> (r: Vec<DiskRef>)
    requires
        facts@.len() == vms@.len(),
        forall|i: int|
            0 <= i < vms@.len() ==> (#[trigger] facts@[i])@.len() == vms@[i].disks@.len(),
        forall|i: int| 0 <= i < files@.len() ==> (#[trigger] files@[i]).wf(host),
    ensures
        r@ == refs_of(host, vms@, facts@, files@),
{
    let ghost found = facts@;
    let mut left = facts;
    let mut r: Vec<DiskRef> = Vec::new();
    let mut i: usize = 0;
    assert(found.skip(0) =~= found);
    while i < vms.len()
        invariant
            i <= vms@.len(),
            found.len() == vms@.len(),
            forall|k: int|
                0 <= k < vms@.len() ==> (#[trigger] found[k])@.len() == vms@[k].disks@.len(),
            left@ == found.skip(i as int),
            r@ == machine_refs(vms@.take(i as int), found),
        decreases vms@.len() - i,
    {
        let own = left.remove(0);
        assert(own == found[i as int]);
        assert(left@ =~= found.skip(i + 1));
        mention_disks(&mut r, &vms[i], own);
        proof {
            assert(vms@.take(i + 1).drop_last() =~= vms@.take(i as int));
            assert(vms@.take(i + 1).last() == vms@[i as int]);
        }
        i = i + 1;
    }
    assert(vms@.take(i as int) =~= vms@);
    let ghost head = r@;
    let ghost all = files@;
    let mut rest = files;
    proof {
        assert(all.skip(0) =~= all);
        assert(all.take(0) =~= Seq::<DirFile>::empty());
        assert(head + image_refs(host, all.take(0)) =~= head);
    }
    while rest.len() > 0
        invariant
            rest@.len() <= all.len(),
            rest@ == all.skip(all.len() - rest@.len()),
            forall|k: int| 0 <= k < all.len() ==> (#[trigger] all[k]).wf(host),
            r@ == head + image_refs(host, all.take(all.len() - rest@.len())),
        decreases rest@.len(),
    {
        let ghost n = all.len() - rest@.len();
        let ghost had = r@;
        let f = rest.remove(0);
        proof {
            assert(f == all[n as int]);
            assert(f.wf(host));
            assert(rest@ =~= all.skip(n + 1));
            assert(all.take(n + 1).drop_last() =~= all.take(n as int));
            assert(all.take(n + 1).last() == f);
        }
        if is_image(host, &f.path, f.is_file) {
            if let Some(facts) = f.facts {
                r.push(DiskRef { path: f.path, attachment: None, facts });
            }
        }
        assert(r@ =~= head + image_refs(host, all.take(n + 1)));
    }
    assert(all.take(all.len() as int) =~= all);
    r
}

/// The row for an image that was not mentioned before.
fn row_for(host: Host, r: DiskRef) -> (row: DiskRow)
    ensures
        row@ == row_of(host, r),
{
    let file_name = show_name(host, &r.path);
    let exists = r.facts.exists;
    let mut attachments: Vec<DiskAttachment> = Vec::new();
    if let Some(a) = r.attachment {
        attachments.push(a);
    }
    let row = DiskRow {
        path: r.path,
        file_name,
        exists,
        apparent_bytes: if exists {
            r.facts.apparent_bytes
        } else {
            0
        },
        allocated_bytes: if exists {
            r.facts.allocated_bytes
        } else {
            None
        },
        attachments,
        nvram: r.facts.nvram,
        summary: if exists {
            r.facts.summary
        } else {
            Err("the image file is missing".to_owned())
        },
    };
    assert(row@.attachments =~= row_of(host, r).attachments);
    row
}

/// The rows are those that the mentions come to, sorted by file name, then by
/// path.
pub open spec fn rows_shown(host: Host, refs: Seq<DiskRef>, r: Seq<DiskRow>) -> bool {
    exists|rows: Seq<DiskRow>| #[trigger]
        row_views(rows) == grouped(host, refs).1 && r == sorting::sorted_of(host, rows)
}

/// Builds the disks view: a row for every disk the machines reference, and one for
/// every image among the files that nothing references. Two mentions of one image
/// share a row. The rows come sorted by file name, then by path.
pub fn disk_rows(
    host: Host,
    vms: &Vec<VmEntry>,
    facts: Vec<Vec<DiskFacts>>,
    files: Vec<DirFile>,
) -> (r: Vec<DiskRow>)
    requires
        facts@.len() == vms@.len(),
        forall|i: int|
            0 <= i < vms@.len() ==> (#[trigger] facts@[i])@.len() == vms@[i].disks@.len(),
        forall|i: int| 0 <= i < files@.len() ==> (#[trigger] files@[i]).wf(host),
    ensures
        rows_shown(host, refs_of(host, vms@, facts@, files@), r@),
{
    row_per_image(host, disk_refs(host, vms, facts, files))
}

/// The rows that mentions come to, sorted.
fn row_per_image(host: Host, refs: Vec<DiskRef>) -> (r: Vec<DiskRow>)
    ensures
        rows_shown(host, refs@, r@),
{
    let ghost all = refs@;
    let mut rest = refs;
    let mut ids: Vec<String> = Vec::new();
    let mut rows: Vec<DiskRow> = Vec::new();
    proof {
        assert(all.take(0) =~= Seq::empty());
        assert(all.skip(0) =~= all);
        assert(text::texts(ids@) =~= Seq::empty());
        assert(row_views(rows@) =~= Seq::empty());
    }
    while rest.len() > 0
        invariant
            rest@.len() <= all.len(),
            rest@ == all.skip(all.len() - rest@.len()),
            ids@.len() == rows@.len(),
            text::texts(ids@) == grouped(host, all.take(all.len() - rest@.len())).0,
            row_views(rows@) == grouped(host, all.take(all.len() - rest@.len())).1,
        decreases rest@.len(),
    {
        let ghost n = all.len() - rest@.len();
        let r = rest.remove(0);
        let ghost seen = text::texts(ids@);
        let ghost known = row_views(rows@);
        proof {
            assert(rest@ =~= all.skip(n + 1));
            assert(r == all[n as int]);
            assert(all.take(n + 1).drop_last() =~= all.take(n as int));
            assert(all.take(n + 1).last() == r);
        }
        let id = identity(&r);
        let mut k: usize = 0;
        while k < ids.len() && !paths::same(host, &ids[k], &id)
            invariant
                k <= ids@.len(),
                seen == text::texts(ids@),
                forall|j: int|
                    0 <= j < k ==> !paths::same_path(host, #[trigger] seen[j], id@),
            decreases ids@.len() - k,
        {
            k = k + 1;
        }
        proof {
            lemma_position_at(host, seen, id@, k as int);
        }
        if k < ids.len() {
            if let Some(a) = r.attachment {
                rows[k].attachments.push(a);
                proof {
                    let before = known[k as int];
                    assert(row_views(rows@)[k as int].attachments =~= before.attachments.push(a));
                    assert(row_views(rows@) =~= known.update(
                        k as int,
                        RowView { attachments: before.attachments.push(a), ..before },
                    ));
                }
            }
        } else {
            let ghost name = id@;
            ids.push(id);
            assert(text::texts(ids@) =~= seen.push(name));
            let row = row_for(host, r);
            let ghost v = row@;
            rows.push(row);
            assert(row_views(rows@) =~= known.push(v));
        }
    }
    proof {
        assert(all.take(all.len() as int) =~= all);
    }
    let ghost found = rows@;
    let r = sorting::sort(host, rows);
    assert(row_views(found) == grouped(host, all).1 && r@ == sorting::sorted_of(host, found));
    r
}

/// How many of the mentions are attachments.
pub open spec fn attached_count(refs: Seq<DiskRef>) -> nat
    decreases refs.len(),
{
    if refs.len() == 0 {
        0
    } else {
        attached_count(refs.drop_last()) + (if refs.last().attachment is Some {
            1nat
        } else {
            0nat
        })
    }
}

/// How many attachments the rows hold together.
pub open spec fn listed_count(rows: Seq<RowView>) -> nat
    decreases rows.len(),
{
    if rows.len() == 0 {
        0
    } else {
        listed_count(rows.drop_last()) + rows.last().attachments.len()
    }
}

proof fn lemma_listed_update(rows: Seq<RowView>, k: int, row: RowView)
    requires
        0 <= k < rows.len(),
        row.attachments.len() == rows[k].attachments.len() + 1,
    ensures
        listed_count(rows.update(k, row)) == listed_count(rows) + 1,
    decreases rows.len(),
{
    let after = rows.update(k, row);
    if k == rows.len() - 1 {
        assert(after.drop_last() =~= rows.drop_last());
    } else {
        assert(after.drop_last() =~= rows.drop_last().update(k, row));
        lemma_listed_update(rows.drop_last(), k, row);
    }
}

/// No image has two rows, and every attachment is listed in exactly one place.
pub proof fn images_have_one_row_each(host: Host, refs: Seq<DiskRef>)
    ensures
        grouped(host, refs).0.len() == grouped(host, refs).1.len(),
        forall|i: int, j: int|
            0 <= i < j < grouped(host, refs).0.len() ==> !paths::same_path(
                host,
                #[trigger] grouped(host, refs).0[i],
                #[trigger] grouped(host, refs).0[j],
            ),
        listed_count(grouped(host, refs).1) == attached_count(refs),
    decreases refs.len(),
{
    if refs.len() > 0 {
        images_have_one_row_each(host, refs.drop_last());
        let (ids, rows) = grouped(host, refs.drop_last());
        let r = refs.last();
        lemma_position(host, ids, identity_of(r));
        let at = position_of(host, ids, identity_of(r));
        if at < ids.len() {
            if let Some(a) = r.attachment {
                lemma_listed_update(
                    rows,
                    at,
                    RowView { attachments: rows[at].attachments.push(a), ..rows[at] },
                );
            }
        } else {
            let more = rows.push(row_of(host, r));
            assert(more.drop_last() =~= rows);
        }
    }
}

/// Row number `k` is the one of that image.
pub open spec fn is_row_of(host: Host, ids: Seq<Seq<char>>, k: int, id: Seq<char>) -> bool {
    0 <= k < ids.len() && paths::same_path(host, ids[k], id)
}

/// The image has a row.
pub open spec fn has_row(host: Host, ids: Seq<Seq<char>>, id: Seq<char>) -> bool {
    exists|k: int| is_row_of(host, ids, k, id)
}

/// What the profiles say of an image, in the order in which they mention it.
pub open spec fn attachments_with(host: Host, refs: Seq<DiskRef>, id: Seq<char>) -> Seq<
    DiskAttachment,
>
    decreases refs.len(),
{
    if refs.len() == 0 {
        Seq::empty()
    } else {
        let init = attachments_with(host, refs.drop_last(), id);
        match refs.last().attachment {
            Some(a) => if paths::same_path(host, identity_of(refs.last()), id) {
                init.push(a)
            } else {
                init
            },
            None => init,
        }
    }
}

/// The row is the one that this mention made, whatever was attached to it since.
pub open spec fn made_by(host: Host, r: DiskRef, id: Seq<char>, row: RowView) -> bool {
    id == identity_of(r) && row == (RowView { attachments: row.attachments, ..row_of(host, r) })
}

proof fn lemma_none_attached(host: Host, refs: Seq<DiskRef>, id: Seq<char>)
    requires
        forall|i: int|
            0 <= i < refs.len() ==> !paths::same_path(host, identity_of(#[trigger] refs[i]), id),
    ensures
        attachments_with(host, refs, id) == Seq::<DiskAttachment>::empty(),
    decreases refs.len(),
{
    if refs.len() > 0 {
        let init = refs.drop_last();
        assert forall|i: int| 0 <= i < init.len() implies !paths::same_path(
            host,
            identity_of(#[trigger] init[i]),
            id,
        ) by {
            assert(init[i] == refs[i]);
        }
        lemma_none_attached(host, init, id);
        assert(!paths::same_path(host, identity_of(refs[refs.len() - 1]), id));
    }
}

proof fn lemma_at_position(host: Host, ids: Seq<Seq<char>>, id: Seq<char>)
    ensures
        position_of(host, ids, id) < ids.len() ==> is_row_of(
            host,
            ids,
            position_of(host, ids, id),
            id,
        ),
    decreases ids.len(),
{
    lemma_position(host, ids, id);
    if ids.len() > 0 && !paths::same_path(host, ids[0], id) {
        lemma_at_position(host, ids.drop_first(), id);
    }
}

/// Every mentioned image has a row, every row is of a mentioned image, and a row
/// lists exactly what the profiles say of its image, in order.
pub proof fn rows_list_their_mentions(host: Host, refs: Seq<DiskRef>)
    ensures
        grouped(host, refs).0.len() == grouped(host, refs).1.len(),
        forall|i: int|
            0 <= i < refs.len() ==> has_row(
                host,
                grouped(host, refs).0,
                identity_of(#[trigger] refs[i]),
            ),
        forall|k: int|
            0 <= k < grouped(host, refs).1.len() ==> exists|i: int|
                0 <= i < refs.len() && made_by(
                    host,
                    #[trigger] refs[i],
                    grouped(host, refs).0[k],
                    #[trigger] grouped(host, refs).1[k],
                ),
        forall|k: int|
            0 <= k < grouped(host, refs).1.len() ==> (#[trigger] grouped(
                host,
                refs,
            ).1[k]).attachments == attachments_with(host, refs, grouped(host, refs).0[k]),
    decreases refs.len(),
{
    if refs.len() > 0 {
        let init = refs.drop_last();
        let r = refs.last();
        let id = identity_of(r);
        rows_list_their_mentions(host, init);
        images_have_one_row_each(host, init);
        let (ids, rows) = grouped(host, init);
        let (after, shown) = grouped(host, refs);
        let at = position_of(host, ids, id);
        lemma_position(host, ids, id);
        lemma_at_position(host, ids, id);
        assert forall|i: int| 0 <= i < refs.len() implies has_row(
            host,
            after,
            identity_of(#[trigger] refs[i]),
        ) by {
            if i < init.len() {
                assert(init[i] == refs[i]);
                let k = choose|k: int| is_row_of(host, ids, k, identity_of(init[i]));
                assert(is_row_of(host, after, k, identity_of(refs[i])));
            } else {
                assert(is_row_of(host, after, at, id));
            }
        }
        assert forall|k: int| 0 <= k < shown.len() implies exists|i: int|
            0 <= i < refs.len() && made_by(host, #[trigger] refs[i], after[k], #[trigger] shown[k]) by {
            if k < ids.len() {
                let i = choose|i: int|
                    0 <= i < init.len() && made_by(host, #[trigger] init[i], ids[k], rows[k]);
                assert(init[i] == refs[i]);
                assert(made_by(host, refs[i], after[k], shown[k]));
            } else {
                assert(refs[refs.len() - 1] == r);
                assert(made_by(host, r, after[k], shown[k]));
            }
        }
        assert forall|k: int| 0 <= k < shown.len() implies (#[trigger] shown[k]).attachments
            == attachments_with(host, refs, after[k]) by {
            if k < ids.len() {
                assert(rows[k].attachments == attachments_with(host, init, ids[k]));
                if k != at {
                    if paths::same_path(host, id, ids[k]) {
                        assert(at < ids.len());
                        assert(paths::same_path(host, ids[at], ids[k]));
                        if at < k {
                            assert(!paths::same_path(host, ids[at], ids[k]));
                        } else {
                            assert(!paths::same_path(host, ids[k], ids[at]));
                        }
                    }
                }
            } else {
                assert forall|i: int| 0 <= i < init.len() implies !paths::same_path(
                    host,
                    identity_of(#[trigger] init[i]),
                    id,
                ) by {
                    let n = choose|n: int| is_row_of(host, ids, n, identity_of(init[i]));
                    assert(!paths::same_path(host, ids[n], id));
                }
                lemma_none_attached(host, init, id);
                assert(shown[k] == row_of(host, r));
                assert(row_of(host, r).attachments =~= attachments_with(host, refs, id));
            }
        }
    }
}

/// Some machine references this image.
pub open spec fn is_referenced(
    host: Host,
    vms: Seq<VmEntry>,
    facts: Seq<Vec<DiskFacts>>,
    id: Seq<char>,
) -> bool {
    exists|i: int, j: int| #[trigger]
        is_disk(vms, i, j) && paths::same_path(
            host,
            identity_of(mention_of(vms[i], j, facts[i]@[j])),
            id,
        )
}

/// There is a disk of that number on a machine of that number.
pub open spec fn is_disk(vms: Seq<VmEntry>, i: int, j: int) -> bool {
    0 <= i < vms.len() && 0 <= j < vms[i].disks@.len()
}

/// The position of a machine's disk among the mentions.
proof fn lemma_mentioned(vms: Seq<VmEntry>, facts: Seq<Vec<DiskFacts>>, i: int, j: int) -> (n: int)
    requires
        is_disk(vms, i, j),
    ensures
        0 <= n < machine_refs(vms, facts).len(),
        machine_refs(vms, facts)[n] == mention_of(vms[i], j, facts[i]@[j]),
    decreases vms.len(),
{
    let init = vms.drop_last();
    let before = machine_refs(init, facts);
    if i == vms.len() - 1 {
        before.len() + j
    } else {
        assert(init[i] == vms[i]);
        let n = lemma_mentioned(init, facts, i, j);
        n
    }
}

/// Every mention by a machine is of one of its disks.
proof fn lemma_mentioning(vms: Seq<VmEntry>, facts: Seq<Vec<DiskFacts>>, n: int) -> (r: (int, int))
    requires
        0 <= n < machine_refs(vms, facts).len(),
    ensures
        is_disk(vms, r.0, r.1),
        machine_refs(vms, facts)[n] == mention_of(vms[r.0], r.1, facts[r.0]@[r.1]),
    decreases vms.len(),
{
    let init = vms.drop_last();
    let before = machine_refs(init, facts);
    if n < before.len() {
        let r = lemma_mentioning(init, facts, n);
        assert(init[r.0] == vms[r.0]);
        r
    } else {
        (vms.len() - 1, n - before.len())
    }
}

/// An image among the files.
pub open spec fn is_image_at(host: Host, files: Seq<DirFile>, n: int) -> bool {
    0 <= n < files.len() && files[n].is_image(host)
}

/// The mention of an image by lying in the machine directory.
pub open spec fn image_ref(f: DirFile) -> DiskRef {
    DiskRef { path: f.path, attachment: None, facts: f.facts->0 }
}

proof fn lemma_imaged(host: Host, files: Seq<DirFile>, n: int) -> (k: int)
    requires
        is_image_at(host, files, n),
    ensures
        0 <= k < image_refs(host, files).len(),
        image_refs(host, files)[k] == image_ref(files[n]),
    decreases files.len(),
{
    let init = files.drop_last();
    if n == files.len() - 1 {
        image_refs(host, init).len() as int
    } else {
        assert(init[n] == files[n]);
        let k = lemma_imaged(host, init, n);
        k
    }
}

proof fn lemma_imaging(host: Host, files: Seq<DirFile>, k: int) -> (n: int)
    requires
        0 <= k < image_refs(host, files).len(),
    ensures
        is_image_at(host, files, n),
        image_refs(host, files)[k] == image_ref(files[n]),
    decreases files.len(),
{
    let init = files.drop_last();
    if k < image_refs(host, init).len() {
        let n = lemma_imaging(host, init, k);
        assert(init[n] == files[n]);
        n
    } else {
        files.len() - 1
    }
}

proof fn lemma_attached(host: Host, refs: Seq<DiskRef>, id: Seq<char>, n: int)
    requires
        0 <= n < refs.len(),
        paths::same_path(host, identity_of(refs[n]), id),
        refs[n].attachment is Some,
    ensures
        attachments_with(host, refs, id).contains(refs[n].attachment->0),
    decreases refs.len(),
{
    let init = refs.drop_last();
    let all = attachments_with(host, refs, id);
    if n == refs.len() - 1 {
        assert(all[all.len() - 1] == refs[n].attachment->0);
    } else {
        assert(init[n] == refs[n]);
        lemma_attached(host, init, id, n);
        let before = attachments_with(host, init, id);
        let k = choose|k: int| 0 <= k < before.len() && before[k] == refs[n].attachment->0;
        assert(all[k] == refs[n].attachment->0);
    }
}

/// The mention that the first attachment of an image comes from.
proof fn lemma_attaching(host: Host, refs: Seq<DiskRef>, id: Seq<char>) -> (n: int)
    requires
        attachments_with(host, refs, id).len() > 0,
    ensures
        0 <= n < refs.len(),
        paths::same_path(host, identity_of(refs[n]), id),
        refs[n].attachment is Some,
    decreases refs.len(),
{
    let init = refs.drop_last();
    if attachments_with(host, init, id).len() > 0 {
        let n = lemma_attaching(host, init, id);
        assert(init[n] == refs[n]);
        n
    } else {
        refs.len() - 1
    }
}

/// Each disk of each machine is listed in the row of its image.
pub proof fn every_disk_is_listed(
    host: Host,
    vms: Seq<VmEntry>,
    facts: Seq<Vec<DiskFacts>>,
    files: Seq<DirFile>,
    i: int,
    j: int,
) -> (k: int)
    requires
        is_disk(vms, i, j),
    ensures
        ({
            let (ids, rows) = grouped(host, refs_of(host, vms, facts, files));
            &&& is_row_of(host, ids, k, identity_of(mention_of(vms[i], j, facts[i]@[j])))
            &&& rows[k].attachments.contains(attachment_of(vms[i], j))
        }),
{
    let refs = refs_of(host, vms, facts, files);
    let n = lemma_mentioned(vms, facts, i, j);
    assert(refs[n] == mention_of(vms[i], j, facts[i]@[j]));
    rows_list_their_mentions(host, refs);
    let (ids, rows) = grouped(host, refs);
    let k = choose|k: int| is_row_of(host, ids, k, identity_of(refs[n]));
    lemma_attached(host, refs, ids[k], n);
    assert(rows[k].attachments == attachments_with(host, refs, ids[k]));
    k
}

/// Each image in the machine directory has a row, with no attachment exactly when
/// no machine references it.
pub proof fn every_image_is_listed(
    host: Host,
    vms: Seq<VmEntry>,
    facts: Seq<Vec<DiskFacts>>,
    files: Seq<DirFile>,
    n: int,
) -> (k: int)
    requires
        is_image_at(host, files, n),
    ensures
        ({
            let (ids, rows) = grouped(host, refs_of(host, vms, facts, files));
            let id = identity_of(image_ref(files[n]));
            &&& is_row_of(host, ids, k, id)
            &&& rows[k].attachments.len() == 0 <==> !is_referenced(host, vms, facts, id)
        }),
{
    let refs = refs_of(host, vms, facts, files);
    let head = machine_refs(vms, facts);
    let id = identity_of(image_ref(files[n]));
    let at = lemma_imaged(host, files, n);
    assert(refs[head.len() + at] == image_ref(files[n]));
    rows_list_their_mentions(host, refs);
    let (ids, rows) = grouped(host, refs);
    let k = choose|k: int| is_row_of(host, ids, k, id);
    assert(rows[k].attachments == attachments_with(host, refs, ids[k]));
    if rows[k].attachments.len() > 0 {
        let m = lemma_attaching(host, refs, ids[k]);
        if m < head.len() {
            assert(refs[m] == head[m]);
            let (i, j) = lemma_mentioning(vms, facts, m);
            assert(is_disk(vms, i, j));
            assert(is_referenced(host, vms, facts, id));
        } else {
            let f = lemma_imaging(host, files, m - head.len());
            assert(refs[m] == image_ref(files[f]));
        }
    }
    if is_referenced(host, vms, facts, id) {
        let (i, j) = choose|i: int, j: int| #[trigger]
            is_disk(vms, i, j) && paths::same_path(
                host,
                identity_of(mention_of(vms[i], j, facts[i]@[j])),
                id,
            );
        let m = lemma_mentioned(vms, facts, i, j);
        assert(refs[m] == head[m]);
        lemma_attached(host, refs, ids[k], m);
    }
    k
}

/// There are no other rows: each is of a disk of some machine or of an image in
/// the machine directory.
pub proof fn every_row_is_mentioned(
    host: Host,
    vms: Seq<VmEntry>,
    facts: Seq<Vec<DiskFacts>>,
    files: Seq<DirFile>,
    k: int,
)
    requires
        0 <= k < grouped(host, refs_of(host, vms, facts, files)).1.len(),
    ensures
        ({
            let (ids, rows) = grouped(host, refs_of(host, vms, facts, files));
            ||| exists|i: int, j: int| #[trigger]
                is_disk(vms, i, j) && made_by(
                    host,
                    mention_of(vms[i], j, facts[i]@[j]),
                    ids[k],
                    rows[k],
                )
            ||| exists|n: int| #[trigger]
                is_image_at(host, files, n) && made_by(host, image_ref(files[n]), ids[k], rows[k])
        }),
{
    let refs = refs_of(host, vms, facts, files);
    let head = machine_refs(vms, facts);
    rows_list_their_mentions(host, refs);
    let (ids, rows) = grouped(host, refs);
    let m = choose|m: int| 0 <= m < refs.len() && made_by(host, #[trigger] refs[m], ids[k], rows[k]);
    if m < head.len() {
        assert(refs[m] == head[m]);
        let (i, j) = lemma_mentioning(vms, facts, m);
        assert(is_disk(vms, i, j));
    } else {
        let f = lemma_imaging(host, files, m - head.len());
        assert(refs[m] == image_ref(files[f]));
        assert(is_image_at(host, files, f));
    }
}

// ---------------------------------------------------------------------------
// Attaching and detaching
// ---------------------------------------------------------------------------

/// The profile entry leads to this disk.
pub open spec fn leads_to(
    host: Host,
    entry: DiskSection,
    profile_dir: Option<Seq<char>>,
    disk: Seq<char>,
) -> bool {
    paths::same_path(host, entry.path@, disk) || paths::same_path(
        host,
        resolved_of(host, entry.path@, None, profile_dir, false, false),
        disk,
    )
}

/// Attaches `disk` to a profile as a writable disk; a disk that is already
/// attached is refused.
pub fn attach_disk(host: Host, cfg: &VmConfig, profile: &str, disk: &str) -> (r: Result<
    VmConfig,
    String,
>)
    ensures
        ({
            let dir = paths::parent_of(host, profile@);
            let duplicate = exists|i: int|
                0 <= i < cfg.disks@.len() && leads_to(host, #[trigger] cfg.disks@[i], dir, disk@);
            match r {
                Ok(c) => {
                    &&& !duplicate
                    &&& c@ == (profile::ConfigView {
                        disks: cfg@.disks.push(
                            (profile::DiskView { path: disk@, writable: true }),
                        ),
                        ..cfg@
                    })
                },
                Err(e) => duplicate && e@ == disk@ + " is already attached to '"@ + cfg.name@ + "'"@,
            }
        }),
{
    let profile_dir = paths::parent(host, profile);
    let none: Option<String> = None;
    let mut i: usize = 0;
    while i < cfg.disks.len()
        invariant
            i <= cfg.disks@.len(),
            none is None,
            text::opt_text(profile_dir) == paths::parent_of(host, profile@),
            forall|j: int|
                0 <= j < i ==> !leads_to(
                    host,
                    #[trigger] cfg.disks@[j],
                    paths::parent_of(host, profile@),
                    disk@,
                ),
        decreases cfg.disks@.len() - i,
    {
        let entry = &cfg.disks[i];
        let resolved = resolve(host, &entry.path, &none, &profile_dir, false, false);
        if paths::same(host, &entry.path, disk) || paths::same(host, &resolved, disk) {
            assert(leads_to(
                host,
                cfg.disks@[i as int],
                paths::parent_of(host, profile@),
                disk@,
            ));
            return Err(text::cat4(disk, " is already attached to '", &cfg.name, "'"));
        }
        i = i + 1;
    }
    let mut c = cfg.clone();
    let ghost before = c.disks@;
    c.disks.push(DiskSection { path: disk.to_owned(), writable: true });
    proof {
        assert(profile::disk_views(c.disks@) =~= cfg@.disks.push(
            (profile::DiskView { path: disk@, writable: true }),
        ));
    }
    Ok(c)
}

/// The disk entries that do not name this path.
pub open spec fn without_disk(host: Host, disks: Seq<profile::DiskView>, declared: Seq<char>) -> Seq<
    profile::DiskView,
>
    decreases disks.len(),
{
    if disks.len() == 0 {
        Seq::empty()
    } else {
        let init = without_disk(host, disks.drop_last(), declared);
        if paths::same_path(host, disks.last().path, declared) {
            init
        } else {
            init.push(disks.last())
        }
    }
}

/// Removes the disk entries whose path is `declared`; a profile without one is
/// left as it is.
pub fn detach_disk(host: Host, cfg: &VmConfig, declared: &str) -> (r: Result<VmConfig, String>)
    ensures
        ({
            let left = without_disk(host, cfg@.disks, declared@);
            match r {
                Ok(c) => left.len() != cfg@.disks.len() && c@ == (profile::ConfigView {
                    disks: left,
                    ..cfg@
                }),
                Err(e) => left.len() == cfg@.disks.len() && e@ == "'"@ + cfg.name@
                    + "' has no disk entry "@ + declared@,
            }
        }),
{
    let mut kept: Vec<DiskSection> = Vec::new();
    let ghost all = cfg@.disks;
    let mut i: usize = 0;
    proof {
        assert(profile::disk_views(kept@) =~= without_disk(host, all.take(0), declared@));
    }
    while i < cfg.disks.len()
        invariant
            all == profile::disk_views(cfg.disks@),
            i <= cfg.disks@.len(),
            profile::disk_views(kept@) == without_disk(host, all.take(i as int), declared@),
        decreases cfg.disks@.len() - i,
    {
        let ghost before = profile::disk_views(kept@);
        proof {
            assert(all.take(i + 1).drop_last() =~= all.take(i as int));
            assert(all.take(i + 1).last() == cfg.disks@[i as int]@);
        }
        if !paths::same(host, &cfg.disks[i].path, declared) {
            kept.push(cfg.disks[i].clone());
            assert(profile::disk_views(kept@) =~= before.push(cfg.disks@[i as int]@));
        }
        i = i + 1;
    }
    assert(all.take(i as int) =~= all);
    if kept.len() == cfg.disks.len() {
        return Err(text::cat4("'", &cfg.name, "' has no disk entry ", declared));
    }
    let mut c = cfg.clone();
    c.disks = kept;
    Ok(c)
}

/// Detaching the disk that was just attached gives the profile back as it was.
pub proof fn detach_undoes_attach(
    host: Host,
    before: Seq<profile::DiskView>,
    disk: Seq<char>,
)
    requires
        forall|i: int|
            0 <= i < before.len() ==> !paths::same_path(host, (#[trigger] before[i]).path, disk),
    ensures
        without_disk(
            host,
            before.push((profile::DiskView { path: disk, writable: true })),
            disk,
        ) == before,
    decreases before.len(),
{
    let entry = profile::DiskView { path: disk, writable: true };
    let after = before.push(entry);
    assert(after.drop_last() =~= before);
    lemma_nothing_detached(host, before, disk);
}

proof fn lemma_nothing_detached(host: Host, disks: Seq<profile::DiskView>, disk: Seq<char>)
    requires
        forall|i: int|
            0 <= i < disks.len() ==> !paths::same_path(host, (#[trigger] disks[i]).path, disk),
    ensures
        without_disk(host, disks, disk) == disks,
    decreases disks.len(),
{
    if disks.len() > 0 {
        let init = disks.drop_last();
        assert forall|i: int| 0 <= i < init.len() implies !paths::same_path(
            host,
            (#[trigger] init[i]).path,
            disk,
        ) by {
            assert(init[i] == disks[i]);
        }
        lemma_nothing_detached(host, init, disk);
        assert(!paths::same_path(host, disks[disks.len() - 1].path, disk));
        assert(init.push(disks.last()) =~= disks);
    } else {
        assert(without_disk(host, disks, disk) =~= disks);
    }
}

} // verus!
