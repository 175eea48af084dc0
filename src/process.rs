use vstd::prelude::*;
use crate::format::{
    clock_display, div_round_half_even, format_cpu_percent, format_kb, format_memory_size,
    format_process_time, kb_display, memory_display, percent_display, round_half_even,
};
use crate::number::{parse_i64, parse_int, parse_nat, parse_seconds_centis, parse_u64, centis_value};
use crate::text::{
    char_is_space, chars_of, is_space, nth_field, process_search_line, search_line,
    split_fields, string_of, views,
};
use crate::system::get_username_from_uid;

verus! {

/// Why one process could not be sampled.
#[derive(Clone, Copy, Debug, PartialEq, Eq, Structural)]
pub enum SampleError {
    /// One of the process's files could not be read (most often: the process has exited).
    Unreadable,
    /// A file was read but did not have the expected shape.
    MalformedContent,
}

/// One process at the moment it was sampled.
#[derive(Clone, Debug)]
pub struct ProcessInfo {
    pub pid: i32,
    pub user: String,
    pub nice_value: i32,
    pub vm_kb: u64,
    pub res_kb: u64,
    pub shr_kb: u64,
    pub cpu_hundredths: u128,
    pub cpu_ticks: u128,
    pub vm: String,
    pub res: String,
    pub shr: String,
    pub cpu_usage: String,
    pub mem_usage: String,
    pub time: String,
    pub command: String,
}

/// The text that the kernel exposes for one process; `None` where a file could not be read.
pub struct ProcessFiles {
    pub pid: i32,
    pub status: Option<String>,
    pub stat: Option<String>,
    pub statm: Option<String>,
    pub cmdline: Option<String>,
}

/// Placeholder user name for an owner that has no account.
pub open spec fn unknown_user() -> Seq<char> {
    seq!['u', 'n', 'k', 'n', 'o', 'w', 'n']
}

/// Whether the characters of `s` have no NUL and do not end in whitespace.
pub open spec fn is_clean_command(s: Seq<char>) -> bool {
    &&& forall|i: int| 0 <= i < s.len() ==> s[i] != '\0'
    &&& s.len() > 0 ==> !is_space(s.last())
}

impl ProcessInfo {
    /// Every field is set, and each display string renders the number it stands for.
    pub open spec fn wf(&self) -> bool {
        &&& self.pid > 0
        &&& self.user@.len() > 0
        &&& self.vm@ == kb_display(self.vm_kb as nat)
        &&& self.res@ == kb_display(self.res_kb as nat)
        &&& self.shr@ == kb_display(self.shr_kb as nat)
        &&& self.cpu_usage@ == percent_display(self.cpu_hundredths as nat)
        &&& self.mem_usage@ == memory_display(self.res_kb as nat)
        &&& self.time@ == clock_display(self.cpu_ticks as nat)
        &&& is_clean_command(self.command@)
    }

    pub fn pid(&self) -> (r: i32)
        ensures
            r == self.pid,
    {
        self.pid
    }

    pub fn user(&self) -> (r: &String)
        ensures
            r == &self.user,
    {
        &self.user
    }

    pub fn nice_value(&self) -> (r: i32)
        ensures
            r == self.nice_value,
    {
        self.nice_value
    }

    pub fn vm(&self) -> (r: &String)
        ensures
            r == &self.vm,
    {
        &self.vm
    }

    pub fn res(&self) -> (r: &String)
        ensures
            r == &self.res,
    {
        &self.res
    }

    pub fn shr(&self) -> (r: &String)
        ensures
            r == &self.shr,
    {
        &self.shr
    }

    pub fn cpu_usage(&self) -> (r: &String)
        ensures
            r == &self.cpu_usage,
    {
        &self.cpu_usage
    }

    pub fn mem_usage(&self) -> (r: &String)
        ensures
            r == &self.mem_usage,
    {
        &self.mem_usage
    }

    pub fn time(&self) -> (r: &String)
        ensures
            r == &self.time,
    {
        &self.time
    }

    pub fn command(&self) -> (r: &String)
        ensures
            r == &self.command,
    {
        &self.command
    }
}

/// The identifier that a directory entry of the process namespace names: a positive decimal
/// number that fits in an `i32`.
pub open spec fn entry_pid(name: Seq<char>) -> Option<int> {
    match parse_nat(name, i32::MAX as nat) {
        Some(v) => if v > 0 {
            Some(v as int)
        } else {
            None
        },
        None => None,
    }
}

/// The owner identifier that a status text gives on its `Uid` line.
pub open spec fn status_uid(status: Seq<char>) -> Option<nat> {
    parse_nat(search_line(status, seq!['U', 'i', 'd']), u32::MAX as nat)
}

/// The niceness in a stat text: its nineteenth field less the kernel's bias of twenty.
pub open spec fn stat_nice(stat: Seq<char>) -> Option<int> {
    match nth_field(stat, 18) {
        Some(f) => match parse_int(f) {
            Some(v) => if i32::MIN <= v - 20 <= i32::MAX {
                Some(v - 20)
            } else {
                None
            },
            None => None,
        },
        None => None,
    }
}

/// The user-mode and kernel-mode tick counts in a stat text: its fourteenth and fifteenth fields.
pub open spec fn stat_ticks(stat: Seq<char>) -> Option<(nat, nat)> {
    match (nth_field(stat, 13), nth_field(stat, 14)) {
        (Some(u), Some(s)) => match (parse_nat(u, u64::MAX as nat), parse_nat(s, u64::MAX as nat)) {
            (Some(a), Some(b)) => Some((a, b)),
            _ => None,
        },
        _ => None,
    }
}

/// Kilobytes in one memory page.
pub const PAGE_KB: u64 = 4;

/// A page count read as kilobytes, if that fits in a `u64`.
pub open spec fn pages_kb(f: Seq<char>) -> Option<nat> {
    match parse_nat(f, (u64::MAX / PAGE_KB) as nat) {
        Some(v) => Some(v * (PAGE_KB as nat)),
        None => None,
    }
}

/// The virtual, resident and shared sizes in kilobytes that a statm text gives in pages.
pub open spec fn statm_kb(statm: Seq<char>) -> Option<(nat, nat, nat)> {
    match (nth_field(statm, 0), nth_field(statm, 1), nth_field(statm, 2)) {
        (Some(a), Some(b), Some(c)) => match (pages_kb(a), pages_kb(b), pages_kb(c)) {
            (Some(x), Some(y), Some(z)) => Some((x, y, z)),
            _ => None,
        },
        _ => None,
    }
}

/// `s` without its trailing whitespace.
pub open spec fn trim_end(s: Seq<char>) -> Seq<char>
    decreases s.len(),
{
    if s.len() > 0 && is_space(s.last()) {
        trim_end(s.drop_last())
    } else {
        s
    }
}

/// A command line with its NUL separators turned into spaces and trailing whitespace removed.
pub open spec fn command_text(raw: Seq<char>) -> Seq<char> {
    trim_end(raw.map_values(|c: char| if c == '\0' { ' ' } else { c }))
}

/// The system uptime in hundredths of a second that an uptime text gives in its first field,
/// when it is positive.
pub open spec fn uptime_centis(text: Seq<char>) -> Option<nat> {
    match nth_field(text, 0) {
        Some(f) => match centis_value(f) {
            Some(v) => if v > 0 {
                Some(v)
            } else {
                None
            },
            None => None,
        },
        None => None,
    }
}

/// Lifetime CPU share in hundredths of a percent: `ticks` at a hundred per second, over an
/// uptime of `uptime` hundredths of a second, spread over `cpus` logical CPUs. In seconds this
/// is `(ticks / 100) / (uptime / 100) * 100 / cpus` percent.
pub open spec fn cpu_share(ticks: nat, uptime: nat, cpus: nat) -> nat {
    round_half_even(ticks * 10000, uptime * cpus)
}

/// Whether every file of `f` was read.
pub open spec fn all_read(f: ProcessFiles) -> bool {
    f.status is Some && f.stat is Some && f.statm is Some && f.cmdline is Some
}

/// Whether every value that a sample needs parses from the files of `f`, under `uptime`.
pub open spec fn all_parse(f: ProcessFiles, uptime: Option<nat>) -> bool {
    &&& f.pid > 0
    &&& uptime matches Some(u) && u > 0
    &&& status_uid(f.status->0@) is Some
    &&& stat_nice(f.stat->0@) is Some
    &&& stat_ticks(f.stat->0@) is Some
    &&& statm_kb(f.statm->0@) is Some
}

/// What sampling `f` comes to: a missing file makes it unreadable; otherwise a value that does
/// not parse (or a missing uptime, or an identifier that is not positive) makes it malformed.
pub open spec fn sample_outcome(f: ProcessFiles, uptime: Option<nat>) -> Result<(), SampleError> {
    if !all_read(f) {
        Err(SampleError::Unreadable)
    } else if !all_parse(f, uptime) {
        Err(SampleError::MalformedContent)
    } else {
        Ok(())
    }
}

/// Whether `p` is the record that the files `f` give under `uptime` and `cpus`, the user name
/// aside.
pub open spec fn describes(p: ProcessInfo, f: ProcessFiles, uptime: Option<nat>, cpus: nat) -> bool {
    let ticks = stat_ticks(f.stat->0@)->0;
    let kb = statm_kb(f.statm->0@)->0;
    &&& p.wf()
    &&& p.pid == f.pid
    &&& p.nice_value == stat_nice(f.stat->0@)->0
    &&& p.vm_kb == kb.0
    &&& p.res_kb == kb.1
    &&& p.shr_kb == kb.2
    &&& p.cpu_ticks == ticks.0 + ticks.1
    &&& p.cpu_hundredths == cpu_share(ticks.0 + ticks.1, uptime->0, cpus)
    &&& p.command@ == command_text(f.cmdline->0@)
}

/// The user name that a lookup result gives: the name found, or the placeholder when there is
/// none or it is empty.
pub open spec fn user_display(found: Option<String>) -> Seq<char> {
    match found {
        Some(n) => if n@.len() > 0 {
            n@
        } else {
            unknown_user()
        },
        None => unknown_user(),
    }
}

/// An optional `u64` read as an optional natural number.
pub open spec fn opt_nat(o: Option<u64>) -> Option<nat> {
    match o {
        Some(v) => Some(v as nat),
        None => None,
    }
}

/// How many of `files` sample successfully under `uptime`.
pub open spec fn count_ok(files: Seq<ProcessFiles>, uptime: Option<nat>) -> nat
    decreases files.len(),
{
    if files.len() == 0 {
        0
    } else {
        count_ok(files.drop_last(), uptime) + if sample_outcome(files.last(), uptime) is Ok {
            1nat
        } else {
            0nat
        }
    }
}

/// The position in `files` of the `k`-th of those that sample successfully.
pub open spec fn ok_index(files: Seq<ProcessFiles>, uptime: Option<nat>, k: int) -> int
    decreases files.len(),
{
    if files.len() == 0 {
        0
    } else if k < count_ok(files.drop_last(), uptime) {
        ok_index(files.drop_last(), uptime, k)
    } else {
        files.len() - 1
    }
}

/// Whether `records` is what one sweep over `files` publishes: one record for each process that
/// samples successfully, in the order of `files`, and no other.
pub open spec fn publishes(
    records: Seq<ProcessInfo>,
    files: Seq<ProcessFiles>,
    uptime: Option<nat>,
    cpus: nat,
) -> bool {
    &&& records.len() == count_ok(files, uptime)
    &&& forall|k: int|
        0 <= k < records.len() ==> describes(
            #[trigger] records[k],
            files[ok_index(files, uptime, k)],
            uptime,
            cpus,
        )
}

proof fn lemma_trim_end_clean(s: Seq<char>)
    requires
        forall|i: int| 0 <= i < s.len() ==> s[i] != '\0',
    ensures
        is_clean_command(trim_end(s)),
        trim_end(s).len() <= s.len(),
        forall|i: int| 0 <= i < trim_end(s).len() ==> trim_end(s)[i] == s[i],
    decreases s.len(),
{
    if s.len() > 0 && is_space(s.last()) {
        let t = s.drop_last();
        assert(forall|i: int| 0 <= i < t.len() ==> t[i] == s[i]);
        lemma_trim_end_clean(t);
    }
}

/// The process identifier that a directory entry's name stands for, if it is one.
pub fn check_proc(name: &str) -> (r: Option<i32>)
    ensures
        r matches Some(p) ==> entry_pid(name@) == Some(p as int),
        r is None ==> entry_pid(name@) is None,
{
    let cs = chars_of(name);
    match parse_u64(&cs) {
        Some(v) => {
            if v > 0 && v <= 0x7fff_ffff {
                Some(v as i32)
            } else {
                None
            }
        },
        None => None,
    }
}

/// The owner identifier on the `Uid` line of a status text.
pub fn parse_uid(status: &str) -> (r: Option<u32>)
    ensures
        r matches Some(u) ==> status_uid(status@) == Some(u as nat),
        r is None ==> status_uid(status@) is None,
{
    let key = "Uid";
    proof {
        reveal_strlit("Uid");
    }
    assert(key@ == seq!['U', 'i', 'd']);
    let v = process_search_line(status, key);
    let cs = chars_of(v.as_str());
    match parse_u64(&cs) {
        Some(n) => {
            if n <= 0xffff_ffff {
                Some(n as u32)
            } else {
                None
            }
        },
        None => None,
    }
}

/// The `k`-th field of `parts` read as an unsigned number.
fn field_u64(parts: &Vec<Vec<char>>, k: usize) -> (r: Option<u64>)
    ensures
        k < parts.len() ==> (r matches Some(v) ==> parse_nat(parts@[k as int]@, u64::MAX as nat)
            == Some(v as nat)) && (r is None ==> parse_nat(parts@[k as int]@, u64::MAX as nat) is None),
        k >= parts.len() ==> r is None,
{
    if k < parts.len() {
        parse_u64(&parts[k])
    } else {
        None
    }
}

/// The niceness in a stat text, corrected for the kernel's bias.
pub fn parse_nice(stat_content: &str) -> (r: Option<i32>)
    ensures
        r matches Some(v) ==> stat_nice(stat_content@) == Some(v as int),
        r is None ==> stat_nice(stat_content@) is None,
{
    let cs = chars_of(stat_content);
    let parts = split_fields(&cs);
    if parts.len() <= 18 {
        return None;
    }
    assert(parts@[18]@ == views(parts@)[18]);
    match parse_i64(&parts[18]) {
        Some(v) => {
            if v >= -2147483628 && v <= 2147483667 {
                Some((v - 20) as i32)
            } else {
                None
            }
        },
        None => None,
    }
}

/// The user-mode and kernel-mode tick counts in a stat text.
pub fn parse_utime_and_stime(stat_content: String) -> (r: Option<(u64, u64)>)
    ensures
        r matches Some((u, s)) ==> stat_ticks(stat_content@) == Some((u as nat, s as nat)),
        r is None ==> stat_ticks(stat_content@) is None,
{
    let cs = chars_of(stat_content.as_str());
    let parts = split_fields(&cs);
    if parts.len() <= 14 {
        return None;
    }
    assert(parts@[13]@ == views(parts@)[13]);
    assert(parts@[14]@ == views(parts@)[14]);
    match (field_u64(&parts, 13), field_u64(&parts, 14)) {
        (Some(u), Some(s)) => Some((u, s)),
        _ => None,
    }
}

/// A page count from `parts` in kilobytes.
fn field_pages_kb(parts: &Vec<Vec<char>>, k: usize) -> (r: Option<u64>)
    requires
        k < parts.len(),
    ensures
        r matches Some(v) ==> pages_kb(parts@[k as int]@) == Some(v as nat),
        r is None ==> pages_kb(parts@[k as int]@) is None,
{
    match parse_u64(&parts[k]) {
        Some(v) => {
            if v <= u64::MAX / PAGE_KB {
                Some(v * PAGE_KB)
            } else {
                None
            }
        },
        None => None,
    }
}

/// The virtual, resident and shared sizes in kilobytes that a statm text gives in pages.
pub fn parse_statm_content(statm_content: String) -> (r: Result<(u64, u64, u64), SampleError>)
    ensures
        r matches Ok((a, b, c)) ==> statm_kb(statm_content@) == Some((a as nat, b as nat, c as nat)),
        r matches Err(e) ==> statm_kb(statm_content@) is None && e == SampleError::MalformedContent,
{
    let cs = chars_of(statm_content.as_str());
    let parts = split_fields(&cs);
    if parts.len() < 3 {
        return Err(SampleError::MalformedContent);
    }
    assert(parts@[0]@ == views(parts@)[0]);
    assert(parts@[1]@ == views(parts@)[1]);
    assert(parts@[2]@ == views(parts@)[2]);
    match (field_pages_kb(&parts, 0), field_pages_kb(&parts, 1), field_pages_kb(&parts, 2)) {
        (Some(a), Some(b), Some(c)) => Ok((a, b, c)),
        _ => Err(SampleError::MalformedContent),
    }
}

/// The system uptime in hundredths of a second, from the first field of an uptime text.
pub fn parse_uptime(text: &str) -> (r: Option<u64>)
    ensures
        opt_nat(r) == uptime_centis(text@),
{
    let cs = chars_of(text);
    let parts = split_fields(&cs);
    if parts.len() == 0 {
        return None;
    }
    assert(parts@[0]@ == views(parts@)[0]);
    match parse_seconds_centis(&parts[0]) {
        Some(v) => {
            if v > 0 {
                Some(v)
            } else {
                None
            }
        },
        None => None,
    }
}

/// A command line with NUL separators turned into spaces and trailing whitespace removed.
pub fn normalize_command(raw: &str) -> (r: String)
    ensures
        r@ == command_text(raw@),
        is_clean_command(r@),
{
    let cs = chars_of(raw);
    let ghost mapped = raw@.map_values(|c: char| if c == '\0' { ' ' } else { c });
    let mut out: Vec<char> = Vec::new();
    let mut i: usize = 0;
    while i < cs.len()
        invariant
            i <= cs.len(),
            cs@ == raw@,
            mapped.len() == raw@.len(),
            forall|j: int| 0 <= j < mapped.len() ==> #[trigger] mapped[j] == if raw@[j] == '\0' {
                ' '
            } else {
                raw@[j]
            },
            out@ == mapped.take(i as int),
        decreases cs.len() - i,
    {
        let c = cs[i];
        if c == '\0' {
            out.push(' ');
        } else {
            out.push(c);
        }
        assert(mapped.take(i + 1) == mapped.take(i as int).push(mapped[i as int]));
        i += 1;
    }
    assert(out@ == mapped);
    while out.len() > 0 && char_is_space(out[out.len() - 1])
        invariant
            trim_end(out@) == trim_end(mapped),
        decreases out.len(),
    {
        out.pop();
    }
    proof {
        assert(forall|j: int| 0 <= j < mapped.len() ==> mapped[j] != '\0');
        lemma_trim_end_clean(mapped);
    }
    string_of(&out)
}

/// Executable form of `cpu_share`.
pub fn cpu_share_hundredths(ticks: u128, uptime: u64, cpus: usize) -> (r: u128)
    requires
        ticks <= 2 * (u64::MAX as int),
        uptime > 0,
        cpus > 0,
    ensures
        r == cpu_share(ticks as nat, uptime as nat, cpus as nat),
{
    assert(ticks * 10000 <= u128::MAX) by (nonlinear_arith)
        requires
            ticks <= 2 * (u64::MAX as int),
    ;
    assert((uptime as int) * (cpus as int) <= u128::MAX && (uptime as int) * (cpus as int) > 0)
        by (nonlinear_arith)
        requires
            0 < uptime <= u64::MAX,
            0 < cpus <= u64::MAX,
    ;
    div_round_half_even(ticks * 10000, (uptime as u128) * (cpus as u128))
}

/// Builds the record for the files `f`, given what the lookup of its owner found.
pub fn build_record(
    f: &ProcessFiles,
    found: Option<String>,
    uptime: Option<u64>,
    cpus: usize,
) -> (r: Result<ProcessInfo, SampleError>)
    requires
        cpus > 0,
    ensures
        r matches Ok(p) ==> sample_outcome(*f, opt_nat(uptime)) is Ok && describes(
            p,
            *f,
            opt_nat(uptime),
            cpus as nat,
        ) && p.user@ == user_display(found),
        r matches Err(e) ==> sample_outcome(*f, opt_nat(uptime)) == Err::<(), SampleError>(e),
{
    let (status, stat, statm, cmdline) = match (&f.status, &f.stat, &f.statm, &f.cmdline) {
        (Some(a), Some(b), Some(c), Some(d)) => (a, b, c, d),
        _ => {
            return Err(SampleError::Unreadable);
        },
    };
    if f.pid <= 0 {
        return Err(SampleError::MalformedContent);
    }
    let up = match uptime {
        Some(u) => {
            if u == 0 {
                return Err(SampleError::MalformedContent);
            }
            u
        },
        None => {
            return Err(SampleError::MalformedContent);
        },
    };
    if parse_uid(status.as_str()).is_none() {
        return Err(SampleError::MalformedContent);
    }
    let nice_value = match parse_nice(stat.as_str()) {
        Some(n) => n,
        None => {
            return Err(SampleError::MalformedContent);
        },
    };
    let (utime, stime) = match parse_utime_and_stime(stat.clone()) {
        Some(t) => t,
        None => {
            return Err(SampleError::MalformedContent);
        },
    };
    let (vm_kb, res_kb, shr_kb) = match parse_statm_content(statm.clone()) {
        Ok(t) => t,
        Err(e) => {
            return Err(e);
        },
    };
    let user = match found {
        Some(n) => {
            if n.as_str().is_empty() {
                unknown_user_string()
            } else {
                n
            }
        },
        None => unknown_user_string(),
    };
    let cpu_ticks = (utime as u128) + (stime as u128);
    let cpu_hundredths = cpu_share_hundredths(cpu_ticks, up, cpus);
    Ok(
        ProcessInfo {
            pid: f.pid,
            user,
            nice_value,
            vm_kb,
            res_kb,
            shr_kb,
            cpu_hundredths,
            cpu_ticks,
            vm: format_kb(vm_kb),
            res: format_kb(res_kb),
            shr: format_kb(shr_kb),
            cpu_usage: format_cpu_percent(cpu_hundredths),
            mem_usage: format_memory_size(res_kb),
            time: format_process_time(utime, stime),
            command: normalize_command(cmdline.as_str()),
        },
    )
}

/// The placeholder user name.
fn unknown_user_string() -> (r: String)
    ensures
        r@ == unknown_user(),
{
    let s = "unknown";
    proof {
        reveal_strlit("unknown");
    }
    String::from_str(s)
}

/// Samples one process: reads its owner from the status text, looks the owner up, and builds
/// its record.
pub fn sample(f: &ProcessFiles, uptime: Option<u64>, cpus: usize) -> (r: Result<
    ProcessInfo,
    SampleError,
>)
    requires
        cpus > 0,
    ensures
        r matches Ok(p) ==> sample_outcome(*f, opt_nat(uptime)) is Ok && describes(
            p,
            *f,
            opt_nat(uptime),
            cpus as nat,
        ),
        r matches Err(e) ==> sample_outcome(*f, opt_nat(uptime)) == Err::<(), SampleError>(e),
{
    let found = match &f.status {
        Some(status) => match parse_uid(status.as_str()) {
            Some(uid) => get_username_from_uid(uid),
            None => None,
        },
        None => None,
    };
    build_record(f, found, uptime, cpus)
}

pub proof fn lemma_ok_index_bounds(files: Seq<ProcessFiles>, uptime: Option<nat>, k: int)
    requires
        0 <= k < count_ok(files, uptime),
    ensures
        0 <= ok_index(files, uptime, k) < files.len(),
        sample_outcome(files[ok_index(files, uptime, k)], uptime) is Ok,
    decreases files.len(),
{
    if files.len() > 0 && k < count_ok(files.drop_last(), uptime) {
        lemma_ok_index_bounds(files.drop_last(), uptime, k);
    }
}

/// Samples every process of `files` and keeps the records of those that sample successfully.
pub fn collect_records(files: &Vec<ProcessFiles>, uptime: Option<u64>, cpus: usize) -> (r: Vec<
    ProcessInfo,
>)
    requires
        cpus > 0,
    ensures
        publishes(r@, files@, opt_nat(uptime), cpus as nat),
{
    let ghost up = opt_nat(uptime);
    let mut out: Vec<ProcessInfo> = Vec::new();
    let mut i: usize = 0;
    while i < files.len()
        invariant
            i <= files.len(),
            cpus > 0,
            up == opt_nat(uptime),
            publishes(out@, files@.take(i as int), up, cpus as nat),
        decreases files.len() - i,
    {
        let ghost pre = files@.take(i as int);
        let ghost cur = files@.take(i + 1);
        let ghost before = out@;
        assert(cur.drop_last() == pre);
        assert(cur.last() == files@[i as int]);
        let res = sample(&files[i], uptime, cpus);
        match res {
            Ok(p) => {
                out.push(p);
            },
            Err(_) => {},
        }
        proof {
            assert forall|k: int| 0 <= k < out@.len() implies describes(
                #[trigger] out@[k],
                cur[ok_index(cur, up, k)],
                up,
                cpus as nat,
            ) by {
                if k < before.len() {
                    lemma_ok_index_bounds(pre, up, k);
                    assert(out@[k] == before[k]);
                    assert(cur[ok_index(pre, up, k)] == pre[ok_index(pre, up, k)]);
                }
            }
        }
        i += 1;
    }
    assert(files@.take(files.len() as int) == files@);
    out
}

/// A process whose files sample successfully is published by a sweep, whatever happens to the
/// other processes of the same sweep: some record of the sweep stands for it.
pub proof fn lemma_sample_isolation(files: Seq<ProcessFiles>, uptime: Option<nat>, j: int)
    requires
        0 <= j < files.len(),
        sample_outcome(files[j], uptime) is Ok,
    ensures
        exists|k: int| 0 <= k < count_ok(files, uptime) && ok_index(files, uptime, k) == j,
    decreases files.len(),
{
    let pre = files.drop_last();
    if j == files.len() - 1 {
        let k = count_ok(pre, uptime) as int;
        assert(ok_index(files, uptime, k) == j);
    } else {
        assert(pre[j] == files[j]);
        lemma_sample_isolation(pre, uptime, j);
        let k = choose|k: int| 0 <= k < count_ok(pre, uptime) && ok_index(pre, uptime, k) == j;
        assert(ok_index(files, uptime, k) == j);
    }
}

} // verus!
