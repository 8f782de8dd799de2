//! Process listing and process name lookup.

use vstd::prelude::*;

use crate::ring_buffer::{name_or_placeholder, placeholder_name};
use crate::text::{
    ascii_lowercase, equal_ignoring_ascii_case, is_ascii_text, lemma_ascii_lowercase_ignores_case,
    push_decimal,
};

verus! {

#[verifier::external_type_specification]
#[verifier::external_body]
pub struct ExSystem(sysinfo::System);

/// Information about a running process.
#[derive(Debug)]
pub struct ProcessInfo {
    /// Process ID.
    pub pid: u32,
    /// Process name.
    pub name: String,
    /// Parent process ID (if available).
    pub parent_pid: Option<u32>,
}

impl Clone for ProcessInfo {
    fn clone(&self) -> (r: Self)
        ensures
            r == *self,
    {
        ProcessInfo { pid: self.pid, name: self.name.clone(), parent_pid: self.parent_pid }
    }
}

/// `sysinfo::System::new`: a process table with nothing loaded yet.
#[verifier::external_body]
fn new_system() -> sysinfo::System {
    sysinfo::System::new()
}

/// `sysinfo::System::refresh_processes`: reloads every process (`None`) or only the
/// given one (`Some(pid)`), dropping dead ones. What it loads depends on the machine,
/// so nothing is stated about it.
#[verifier::external_body]
fn refresh_processes(system: &mut sysinfo::System, only: Option<u32>) {
    match only {
        None => {
            system.refresh_processes(sysinfo::ProcessesToUpdate::All, true);
        },
        Some(pid) => {
            let pids = [sysinfo::Pid::from_u32(pid)];
            system.refresh_processes(sysinfo::ProcessesToUpdate::Some(&pids), true);
        },
    }
}

/// `sysinfo::System::process`: the name of the loaded process with this PID, if one is
/// loaded, converted lossily to UTF-8. It depends on the machine, so nothing is stated.
#[verifier::external_body]
fn loaded_process_name(system: &sysinfo::System, pid: u32) -> Option<String> {
    match system.process(sysinfo::Pid::from_u32(pid)) {
        Some(p) => Some(p.name().to_string_lossy().into_owned()),
        None => None,
    }
}

/// `sysinfo::System::processes`: every loaded process, converted to `ProcessInfo`, in
/// the table's (unspecified) order. It depends on the machine, so nothing is stated.
#[verifier::external_body]
fn loaded_processes(system: &sysinfo::System) -> Vec<ProcessInfo> {
    let mut out = Vec::new();
    for (pid, p) in system.processes() {
        out.push(ProcessInfo {
            pid: pid.as_u32(),
            name: p.name().to_string_lossy().into_owned(),
            parent_pid: match p.parent() {
                Some(q) => Some(q.as_u32()),
                None => None,
            },
        });
    }
    out
}

/// The process name to record for `pid`: the name that was found, or `<pid>`.
pub fn process_name_or_placeholder(pid: u32, found: Option<String>) -> (r: String)
    ensures
        r@ == name_or_placeholder(pid, found),
{
    match found {
        Some(name) => name,
        None => {
            let mut s = String::from_str("<");
            push_decimal(&mut s, pid as u64);
            s.append(">");
            s
        },
    }
}

/// Looks up the name of the process with this PID, or `<pid>` when it is not found.
/// Whether the process is found, and its name, depend on what runs on the machine, so
/// no clause states the result; `process_name_or_placeholder` states exactly what is
/// made of what the lookup found.
pub fn lookup_process_name(pid: u32) -> String {
    let mut system = new_system();
    refresh_processes(&mut system, Some(pid));
    let found = loaded_process_name(&system, pid);
    process_name_or_placeholder(pid, found)
}

/// What `str::to_lowercase` makes of a text (Unicode lowercase mapping).
pub uninterp spec fn lowercase(s: Seq<char>) -> Seq<char>;

/// `str::to_lowercase`: the Unicode lowercase mapping of the text, which for ASCII text
/// makes the capitals `A`-`Z` small and keeps every other character.
#[verifier::external_body]
fn to_lowercase(s: &str) -> (r: String)
    ensures
        r@ == lowercase(s@),
        is_ascii_text(s@) ==> r@ == ascii_lowercase(s@),
{
    s.to_lowercase()
}

/// Whether `needle` occurs in `haystack` as a contiguous run of characters.
pub open spec fn contains_text(haystack: Seq<char>, needle: Seq<char>) -> bool {
    exists|i: int|
        0 <= i <= haystack.len() - needle.len() && #[trigger] haystack.subrange(i, i + needle.len())
            == needle
}

/// Whether the pattern occurs in the text (as `str::contains` with a string pattern).
pub fn str_contains(haystack: &str, needle: &str) -> (r: bool)
    ensures
        r == contains_text(haystack@, needle@),
{
    let h = haystack.unicode_len();
    let n = needle.unicode_len();
    if n > h {
        return false;
    }
    let mut i: usize = 0;
    loop
        invariant
            n <= h,
            h == haystack@.len(),
            n == needle@.len(),
            i <= h - n,
            forall|k: int| 0 <= k < i ==> #[trigger] haystack@.subrange(k, k + n) != needle@,
        decreases h - n - i,
    {
        let mut j: usize = 0;
        while j < n && haystack.get_char(i + j) == needle.get_char(j)
            invariant
                j <= n,
                i + n <= h,
                h == haystack@.len(),
                n == needle@.len(),
                forall|k: int| 0 <= k < j ==> haystack@[i + k] == needle@[k],
            decreases n - j,
        {
            j = j + 1;
        }
        if j == n {
            assert(haystack@.subrange(i as int, i + n) =~= needle@);
            return true;
        }
        assert(haystack@.subrange(i as int, i + n)[j as int] != needle@[j as int]);
        if i == h - n {
            return false;
        }
        i = i + 1;
    }
}

/// Whether a process name is selected by the optional filter: it contains the filter,
/// ignoring case.
pub open spec fn name_selected(name: Seq<char>, filter: Option<Seq<char>>) -> bool {
    match filter {
        None => true,
        Some(f) => contains_text(lowercase(name), lowercase(f)),
    }
}

/// The processes whose names the filter selects, in their order.
pub open spec fn selected(processes: Seq<ProcessInfo>, filter: Option<Seq<char>>) -> Seq<ProcessInfo> {
    processes.filter(|p: ProcessInfo| name_selected(p.name@, filter))
}

/// The processes whose lowercased names contain `folded`, in their order.
pub open spec fn folded_selection(processes: Seq<ProcessInfo>, folded: Seq<char>) -> Seq<
    ProcessInfo,
> {
    processes.filter(|p: ProcessInfo| contains_text(lowercase(p.name@), folded))
}

/// Name filters that differ only in the case of ASCII letters select the same processes.
pub proof fn lemma_filter_ignores_ascii_case(
    processes: Seq<ProcessInfo>,
    f1: Seq<char>,
    f2: Seq<char>,
)
    requires
        equal_ignoring_ascii_case(f1, f2),
    ensures
        folded_selection(processes, ascii_lowercase(f1)) == folded_selection(
            processes,
            ascii_lowercase(f2),
        ),
        pid_sorted(folded_selection(processes, ascii_lowercase(f1))) == pid_sorted(
            folded_selection(processes, ascii_lowercase(f2)),
        ),
{
    lemma_ascii_lowercase_ignores_case(f1, f2);
}

/// Whether the processes are in ascending PID order.
pub open spec fn sorted_by_pid(processes: Seq<ProcessInfo>) -> bool {
    forall|i: int, j: int| 0 <= i < j < processes.len() ==> processes[i].pid <= processes[j].pid
}

/// What `slice::sort_by_key` on the PID makes of a list of processes: the same
/// processes, stably sorted into ascending PID order (a function of the list alone).
pub uninterp spec fn pid_sorted(processes: Seq<ProcessInfo>) -> Seq<ProcessInfo>;

/// `slice::sort_by_key` on the PID: a stable sort into ascending PID order.
#[verifier::external_body]
fn sort_by_pid(v: &mut Vec<ProcessInfo>)
    ensures
        final(v)@ == pid_sorted(old(v)@),
        final(v)@.to_multiset() == old(v)@.to_multiset(),
        sorted_by_pid(final(v)@),
{
    v.sort_by_key(|p| p.pid)
}

/// The optional filter as text.
pub open spec fn filter_view(name_filter: Option<&str>) -> Option<Seq<char>> {
    match name_filter {
        Some(f) => Some(f@),
        None => None,
    }
}

/// Keeps the processes whose names contain the filter (ignoring case), sorted by PID.
pub fn select_processes(processes: Vec<ProcessInfo>, name_filter: Option<&str>) -> (r: Vec<
    ProcessInfo,
>)
    ensures
        r@ == pid_sorted(selected(processes@, filter_view(name_filter))),
        r@.to_multiset() == selected(processes@, filter_view(name_filter)).to_multiset(),
        sorted_by_pid(r@),
        forall|i: int|
            0 <= i < r@.len() ==> name_selected(
                (#[trigger] r@[i]).name@,
                filter_view(name_filter),
            ),
        name_filter matches Some(f) ==> (is_ascii_text(f@) ==> r@ == pid_sorted(
            folded_selection(processes@, ascii_lowercase(f@)),
        )),
{
    let ghost fv = filter_view(name_filter);
    let ghost pred = |p: ProcessInfo| name_selected(p.name@, fv);
    let filter_lower: Option<String> = match name_filter {
        Some(f) => Some(to_lowercase(f)),
        None => None,
    };
    proof {
        if let Some(f) = name_filter {
            if is_ascii_text(f@) {
                assert(pred =~= (|p: ProcessInfo| contains_text(lowercase(p.name@), ascii_lowercase(f@))));
            }
        }
    }
    let mut out: Vec<ProcessInfo> = Vec::new();
    let mut i: usize = 0;
    while i < processes.len()
        invariant
            i <= processes.len(),
            pred == (|p: ProcessInfo| name_selected(p.name@, fv)),
            fv == filter_view(name_filter),
            filter_lower matches Some(fl) ==> fv matches Some(f) && fl@ == lowercase(f),
            filter_lower is None ==> fv is None,
            out@ == processes@.take(i as int).filter(pred),
        decreases processes.len() - i,
    {
        let keep = match &filter_lower {
            Some(fl) => {
                let name_lower = to_lowercase(processes[i].name.as_str());
                str_contains(name_lower.as_str(), fl.as_str())
            },
            None => true,
        };
        proof {
            reveal_with_fuel(Seq::filter, 1);
            assert(processes@.take(i + 1).drop_last() =~= processes@.take(i as int));
            assert(keep == pred(processes@[i as int]));
        }
        if keep {
            out.push(processes[i].clone());
        }
        i = i + 1;
    }
    assert(processes@.take(processes.len() as int) =~= processes@);
    let ghost before_sort = out@;
    sort_by_pid(&mut out);
    proof {
        broadcast use vstd::seq_lib::group_to_multiset_ensures;
        assert forall|k: int| 0 <= k < out@.len() implies name_selected(
            (#[trigger] out@[k]).name@,
            fv,
        ) by {
            assert(out@.contains(out@[k]));
            assert(out@.to_multiset().count(out@[k]) > 0);
            assert(before_sort.contains(out@[k]));
            let j = choose|j: int| 0 <= j < before_sort.len() && before_sort[j] == out@[k];
            processes@.lemma_filter_pred(pred, j);
        }
    }
    out
}

/// Lists the running processes whose names contain the filter (ignoring case), sorted
/// by PID. Which processes run depends on the machine, so the list's content is stated
/// only as far as it holds of every outcome; `select_processes` states exactly what is
/// made of the loaded processes.
pub fn list_processes(name_filter: Option<&str>) -> (r: Vec<ProcessInfo>)
    ensures
        sorted_by_pid(r@),
        forall|i: int|
            0 <= i < r@.len() ==> name_selected(
                (#[trigger] r@[i]).name@,
                filter_view(name_filter),
            ),
{
    let mut system = new_system();
    refresh_processes(&mut system, None);
    let processes = loaded_processes(&system);
    select_processes(processes, name_filter)
}

} // verus!
