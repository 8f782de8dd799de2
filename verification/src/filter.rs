//! Regex-based filtering of debug output.

use vstd::prelude::*;

use crate::error::DbgViewError;
use crate::ring_buffer::DebugEntry;

verus! {

#[verifier::external_type_specification]
#[verifier::external_body]
pub struct ExRegex(regex::Regex);

/// Whether `regex::Regex::new` accepts the pattern (it is valid and within the
/// default size limit).
pub uninterp spec fn regex_compiles(pattern: Seq<char>) -> bool;

/// Whether `regex::Regex::is_match` finds a match of the compiled pattern anywhere
/// in the haystack.
pub uninterp spec fn regex_is_match(pattern: Seq<char>, haystack: Seq<char>) -> bool;

/// A compiled regular expression together with the pattern it was compiled from.
#[derive(Debug)]
pub struct CompiledPattern {
    source: String,
    regex: regex::Regex,
}

impl View for CompiledPattern {
    type V = Seq<char>;

    closed spec fn view(&self) -> Seq<char> {
        self.source@
    }
}

/// `regex::Regex::new`: compiles `pattern`, succeeding exactly when the pattern is
/// one the crate accepts. The compiled value keeps the pattern it came from, which
/// no other code of this crate can change.
#[verifier::external_body]
fn compile_pattern(pattern: String) -> (r: Result<CompiledPattern, regex::Error>)
    ensures
        r is Ok <==> regex_compiles(pattern@),
        r matches Ok(p) ==> p@ == pattern@,
{
    match regex::Regex::new(&pattern) {
        Ok(regex) => Ok(CompiledPattern { source: pattern, regex }),
        Err(e) => Err(e),
    }
}

/// `regex::Regex::is_match`: whether the pattern matches somewhere in `haystack`.
#[verifier::external_body]
fn pattern_is_match(pattern: &CompiledPattern, haystack: &str) -> (r: bool)
    ensures
        r == regex_is_match(pattern@, haystack@),
{
    pattern.regex.is_match(haystack)
}

/// The pattern prefix that makes a regular expression case-insensitive.
pub open spec fn case_insensitive(p: Seq<char>) -> Seq<char> {
    seq!['(', '?', 'i', ')'] + p
}

/// The abstract content of a filter set: patterns as character sequences.
#[verifier::ext_equal]
pub struct FilterSetView {
    pub include_patterns: Seq<Seq<char>>,
    pub exclude_patterns: Seq<Seq<char>>,
    pub process_names: Seq<Seq<char>>,
    pub process_pids: Seq<u32>,
}

/// A set of filters to apply to debug output.
#[derive(Debug)]
pub struct FilterSet {
    /// Include patterns - entry must match at least one (if any specified).
    pub include_patterns: Vec<String>,
    /// Exclude patterns - matching entries are excluded.
    pub exclude_patterns: Vec<String>,
    /// Process name patterns - entry must match at least one (if any specified).
    pub process_names: Vec<String>,
    /// Specific process IDs to capture from.
    pub process_pids: Vec<u32>,
}

/// The character sequences of a list of strings.
pub open spec fn strings_view(v: Seq<String>) -> Seq<Seq<char>> {
    v.map_values(|s: String| s@)
}

impl View for FilterSet {
    type V = FilterSetView;

    open spec fn view(&self) -> FilterSetView {
        FilterSetView {
            include_patterns: strings_view(self.include_patterns@),
            exclude_patterns: strings_view(self.exclude_patterns@),
            process_names: strings_view(self.process_names@),
            process_pids: self.process_pids@,
        }
    }
}

/// The filter set with no filters.
pub open spec fn empty_filters() -> FilterSetView {
    FilterSetView {
        include_patterns: Seq::empty(),
        exclude_patterns: Seq::empty(),
        process_names: Seq::empty(),
        process_pids: Seq::empty(),
    }
}

fn clone_strings(v: &Vec<String>) -> (r: Vec<String>)
    ensures
        r@ == v@,
{
    let mut r: Vec<String> = Vec::new();
    let mut i: usize = 0;
    while i < v.len()
        invariant
            i <= v.len(),
            r@ == v@.take(i as int),
        decreases v.len() - i,
    {
        r.push(v[i].clone());
        i = i + 1;
        assert(r@ =~= v@.take(i as int));
    }
    assert(v@.take(v.len() as int) =~= v@);
    r
}

fn clone_pids(v: &Vec<u32>) -> (r: Vec<u32>)
    ensures
        r@ == v@,
{
    let mut r: Vec<u32> = Vec::new();
    let mut i: usize = 0;
    while i < v.len()
        invariant
            i <= v.len(),
            r@ == v@.take(i as int),
        decreases v.len() - i,
    {
        r.push(v[i]);
        i = i + 1;
        assert(r@ =~= v@.take(i as int));
    }
    assert(v@.take(v.len() as int) =~= v@);
    r
}

impl Clone for FilterSet {
    fn clone(&self) -> (r: Self)
        ensures
            r@ == self@,
    {
        FilterSet {
            include_patterns: clone_strings(&self.include_patterns),
            exclude_patterns: clone_strings(&self.exclude_patterns),
            process_names: clone_strings(&self.process_names),
            process_pids: clone_pids(&self.process_pids),
        }
    }
}

impl Default for FilterSet {
    fn default() -> (r: Self)
        ensures
            r@ == empty_filters(),
    {
        let r = FilterSet {
            include_patterns: Vec::new(),
            exclude_patterns: Vec::new(),
            process_names: Vec::new(),
            process_pids: Vec::new(),
        };
        assert(r@ =~= empty_filters());
        r
    }
}

/// The patterns a filter set is compiled to: its own, with the process name
/// patterns made case-insensitive.
pub open spec fn compiled_view(f: FilterSetView) -> FilterSetView {
    FilterSetView {
        include_patterns: f.include_patterns,
        exclude_patterns: f.exclude_patterns,
        process_names: f.process_names.map_values(|p: Seq<char>| case_insensitive(p)),
        process_pids: f.process_pids,
    }
}

/// Whether every pattern of the list compiles.
pub open spec fn all_compile(patterns: Seq<Seq<char>>) -> bool {
    forall|i: int| 0 <= i < patterns.len() ==> #[trigger] regex_compiles(patterns[i])
}

/// Whether every pattern of a filter set compiles, once made what it is compiled as.
pub open spec fn filters_compile(f: FilterSetView) -> bool {
    let c = compiled_view(f);
    &&& all_compile(c.include_patterns)
    &&& all_compile(c.exclude_patterns)
    &&& all_compile(c.process_names)
}

/// Whether some pattern of the list matches the haystack.
pub open spec fn any_match(patterns: Seq<Seq<char>>, haystack: Seq<char>) -> bool {
    exists|i: int| 0 <= i < patterns.len() && #[trigger] regex_is_match(patterns[i], haystack)
}

/// Whether an entry passes compiled filters: its PID is listed (if any are), its
/// process name matches a name pattern (if any), its text matches no exclude pattern,
/// and its text matches one of the wanted-text patterns (if any).
pub open spec fn entry_matches(f: FilterSetView, e: DebugEntry) -> bool {
    &&& (f.process_pids.len() == 0 || f.process_pids.contains(e.pid))
    &&& (f.process_names.len() == 0 || any_match(f.process_names, e.process_name@))
    &&& !any_match(f.exclude_patterns, e.text@)
    &&& (f.include_patterns.len() == 0 || any_match(f.include_patterns, e.text@))
}

/// Compiled filter set for efficient matching.
#[derive(Debug)]
pub struct CompiledFilters {
    includes: Vec<CompiledPattern>,
    excludes: Vec<CompiledPattern>,
    process_names: Vec<CompiledPattern>,
    process_pids: Vec<u32>,
}

/// The patterns of a list of compiled patterns.
pub open spec fn patterns_view(v: Seq<CompiledPattern>) -> Seq<Seq<char>> {
    v.map_values(|p: CompiledPattern| p@)
}

impl View for CompiledFilters {
    type V = FilterSetView;

    closed spec fn view(&self) -> FilterSetView {
        FilterSetView {
            include_patterns: patterns_view(self.includes@),
            exclude_patterns: patterns_view(self.excludes@),
            process_names: patterns_view(self.process_names@),
            process_pids: self.process_pids@,
        }
    }
}

impl Default for CompiledFilters {
    fn default() -> (r: Self)
        ensures
            r@ == empty_filters(),
    {
        let r = CompiledFilters {
            includes: Vec::new(),
            excludes: Vec::new(),
            process_names: Vec::new(),
            process_pids: Vec::new(),
        };
        assert(r@ =~= empty_filters());
        r
    }
}

/// Compiles each pattern, made case-insensitive when asked; stops at the first
/// pattern that does not compile.
fn compile_list(patterns: &Vec<String>, ignore_case: bool) -> (r: Result<
    Vec<CompiledPattern>,
    regex::Error,
>)
    ensures
        ({
            let ps = if ignore_case {
                strings_view(patterns@).map_values(|p: Seq<char>| case_insensitive(p))
            } else {
                strings_view(patterns@)
            };
            match r {
                Ok(v) => all_compile(ps) && patterns_view(v@) == ps,
                Err(_) => !all_compile(ps),
            }
        }),
{
    let ghost ps = if ignore_case {
        strings_view(patterns@).map_values(|p: Seq<char>| case_insensitive(p))
    } else {
        strings_view(patterns@)
    };
    let mut out: Vec<CompiledPattern> = Vec::new();
    let mut i: usize = 0;
    while i < patterns.len()
        invariant
            i <= patterns.len(),
            ps.len() == patterns.len(),
            ps == (if ignore_case {
                strings_view(patterns@).map_values(|p: Seq<char>| case_insensitive(p))
            } else {
                strings_view(patterns@)
            }),
            all_compile(ps.take(i as int)),
            patterns_view(out@) == ps.take(i as int),
        decreases patterns.len() - i,
    {
        let source = if ignore_case {
            proof {
                reveal_strlit("(?i)");
            }
            let mut s = String::from_str("(?i)");
            s.append(patterns[i].as_str());
            s
        } else {
            patterns[i].clone()
        };
        assert(source@ == ps[i as int]);
        match compile_pattern(source) {
            Ok(p) => {
                let ghost prev = out@;
                let ghost pv = p@;
                out.push(p);
                assert(patterns_view(out@) =~= patterns_view(prev).push(pv));
            },
            Err(e) => {
                assert(!regex_compiles(ps[i as int]));
                return Err(e);
            },
        }
        i = i + 1;
        assert(patterns_view(out@) =~= ps.take(i as int));
        assert(all_compile(ps.take(i as int))) by {
            assert forall|j: int| 0 <= j < i implies #[trigger] regex_compiles(
                ps.take(i as int)[j],
            ) by {
                if j < i - 1 {
                    assert(ps.take(i as int)[j] == ps.take(i - 1)[j]);
                }
            }
        }
    }
    assert(ps.take(patterns.len() as int) =~= ps);
    Ok(out)
}

impl CompiledFilters {
    /// Compiles a filter set; fails with `InvalidRegex` exactly when one of its
    /// patterns does not compile.
    pub fn compile(filter_set: &FilterSet) -> (r: Result<Self, DbgViewError>)
        ensures
            match r {
                Ok(c) => filters_compile(filter_set@) && c@ == compiled_view(filter_set@),
                Err(e) => !filters_compile(filter_set@) && e is InvalidRegex,
            },
    {
        let includes = match compile_list(&filter_set.include_patterns, false) {
            Ok(v) => v,
            Err(e) => {
                return Err(DbgViewError::InvalidRegex(e));
            },
        };
        let excludes = match compile_list(&filter_set.exclude_patterns, false) {
            Ok(v) => v,
            Err(e) => {
                return Err(DbgViewError::InvalidRegex(e));
            },
        };
        let process_names = match compile_list(&filter_set.process_names, true) {
            Ok(v) => v,
            Err(e) => {
                return Err(DbgViewError::InvalidRegex(e));
            },
        };
        let r = CompiledFilters {
            includes,
            excludes,
            process_names,
            process_pids: clone_pids(&filter_set.process_pids),
        };
        assert(r@ =~= compiled_view(filter_set@));
        Ok(r)
    }
    /// Whether the entry passes the filters.
    pub fn matches(&self, entry: &DebugEntry) -> (r: bool)
        ensures
            r == entry_matches(self@, *entry),
    {
        let ghost f = self@;
        // PID filter
        if self.process_pids.len() > 0 {
            let mut found = false;
            let mut i: usize = 0;
            while i < self.process_pids.len()
                invariant
                    i <= self.process_pids.len(),
                    found <==> self.process_pids@.take(i as int).contains(entry.pid),
                decreases self.process_pids.len() - i,
            {
                assert(self.process_pids@.take(i + 1) =~= self.process_pids@.take(i as int).push(
                    self.process_pids@[i as int],
                ));
                let ghost pre = self.process_pids@.take(i as int);
                let ghost post = self.process_pids@.take(i + 1);
                if self.process_pids[i] == entry.pid {
                    found = true;
                    assert(post[i as int] == entry.pid);
                } else {
                    assert(post.contains(entry.pid) ==> pre.contains(entry.pid)) by {
                        if post.contains(entry.pid) {
                            let k = choose|k: int| 0 <= k < post.len() && post[k] == entry.pid;
                            assert(pre[k] == post[k]);
                        }
                    }
                    assert(pre.contains(entry.pid) ==> post.contains(entry.pid)) by {
                        if pre.contains(entry.pid) {
                            let k = choose|k: int| 0 <= k < pre.len() && pre[k] == entry.pid;
                            assert(pre[k] == post[k]);
                        }
                    }
                }
                i = i + 1;
            }
            assert(self.process_pids@.take(i as int) =~= self.process_pids@);
            if !found {
                return false;
            }
        }
        // Process name filter
        if self.process_names.len() > 0 {
            let mut name_matches = false;
            let mut i: usize = 0;
            while i < self.process_names.len()
                invariant
                    i <= self.process_names.len(),
                    f == self@,
                    name_matches <==> any_match(f.process_names.take(i as int), entry.process_name@),
                decreases self.process_names.len() - i,
            {
                let m = pattern_is_match(&self.process_names[i], entry.process_name.as_str());
                proof {
                    let pre = f.process_names.take(i as int);
                    let post = f.process_names.take(i + 1);
                    assert(post[i as int] == self.process_names@[i as int]@);
                    if any_match(pre, entry.process_name@) {
                        let j = choose|j: int| 0 <= j < pre.len() && #[trigger] regex_is_match(pre[j], entry.process_name@);
                        assert(post[j] == pre[j]);
                    }
                    if any_match(post, entry.process_name@) && !m {
                        let j = choose|j: int| 0 <= j < post.len() && #[trigger] regex_is_match(post[j], entry.process_name@);
                        assert(pre[j] == post[j]);
                    }
                }
                if m {
                    name_matches = true;
                }
                i = i + 1;
            }
            assert(f.process_names.take(i as int) =~= f.process_names);
            if !name_matches {
                return false;
            }
        }
        // Exclude patterns
        let mut i: usize = 0;
        while i < self.excludes.len()
            invariant
                i <= self.excludes.len(),
                f == self@,
                f.process_pids.len() == 0 || f.process_pids.contains(entry.pid),
                f.process_names.len() == 0 || any_match(f.process_names, entry.process_name@),
                !any_match(f.exclude_patterns.take(i as int), entry.text@),
            decreases self.excludes.len() - i,
        {
            let m = pattern_is_match(&self.excludes[i], entry.text.as_str());
            proof {
                let pre = f.exclude_patterns.take(i as int);
                let post = f.exclude_patterns.take(i + 1);
                assert(post[i as int] == self.excludes@[i as int]@);
                if m {
                    assert(f.exclude_patterns[i as int] == post[i as int]);
                    assert(any_match(f.exclude_patterns, entry.text@));
                } else if any_match(post, entry.text@) {
                    let j = choose|j: int| 0 <= j < post.len() && #[trigger] regex_is_match(post[j], entry.text@);
                    assert(pre[j] == post[j]);
                }
            }
            if m {
                return false;
            }
            i = i + 1;
        }
        assert(f.exclude_patterns.take(i as int) =~= f.exclude_patterns);
        // Wanted-text patterns
        if self.includes.len() > 0 {
            let mut j: usize = 0;
            while j < self.includes.len()
                invariant
                    j <= self.includes.len(),
                    f == self@,
                    f.process_pids.len() == 0 || f.process_pids.contains(entry.pid),
                    f.process_names.len() == 0 || any_match(f.process_names, entry.process_name@),
                    !any_match(f.exclude_patterns, entry.text@),
                    !any_match(f.include_patterns.take(j as int), entry.text@),
                decreases self.includes.len() - j,
            {
                let m = pattern_is_match(&self.includes[j], entry.text.as_str());
                proof {
                    let pre = f.include_patterns.take(j as int);
                    let post = f.include_patterns.take(j + 1);
                    assert(post[j as int] == self.includes@[j as int]@);
                    if m {
                        assert(f.include_patterns[j as int] == post[j as int]);
                        assert(any_match(f.include_patterns, entry.text@));
                    } else if any_match(post, entry.text@) {
                        let k = choose|k: int| 0 <= k < post.len() && #[trigger] regex_is_match(post[k], entry.text@);
                        assert(pre[k] == post[k]);
                    }
                }
                if m {
                    return true;
                }
                j = j + 1;
            }
            assert(f.include_patterns.take(j as int) =~= f.include_patterns);
            return false;
        }
        true
    }

    /// The entries that pass the filters, in their order.
    pub fn filter_entries(&self, entries: Vec<DebugEntry>) -> (r: Vec<DebugEntry>)
        ensures
            r@ == passing(self@, entries@),
    {
        let ghost pred = |e: DebugEntry| entry_matches(self@, e);
        let mut out: Vec<DebugEntry> = Vec::new();
        let mut i: usize = 0;
        while i < entries.len()
            invariant
                i <= entries.len(),
                pred == (|e: DebugEntry| entry_matches(self@, e)),
                out@ == entries@.take(i as int).filter(pred),
            decreases entries.len() - i,
        {
            let keep = self.matches(&entries[i]);
            proof {
                reveal_with_fuel(Seq::filter, 1);
                assert(entries@.take(i + 1).drop_last() =~= entries@.take(i as int));
            }
            if keep {
                out.push(entries[i].clone());
            }
            i = i + 1;
        }
        assert(entries@.take(entries.len() as int) =~= entries@);
        out
    }
}

/// With no filters set, every entry passes.
pub proof fn lemma_no_filters_pass_everything(e: DebugEntry)
    ensures
        filters_compile(empty_filters()),
        entry_matches(compiled_view(empty_filters()), e),
{
    assert(compiled_view(empty_filters()).process_names =~= Seq::<Seq<char>>::empty());
}

/// An entry whose text matches an exclude pattern never passes, whatever the
/// other filters say.
pub proof fn lemma_exclusion_wins(f: FilterSetView, e: DebugEntry, i: int)
    requires
        0 <= i < f.exclude_patterns.len(),
        regex_is_match(f.exclude_patterns[i], e.text@),
    ensures
        !entry_matches(f, e),
{
}

/// Matching any one of the wanted-text patterns is enough, when the other filters
/// let the entry through.
pub proof fn lemma_one_wanted_pattern_suffices(f: FilterSetView, e: DebugEntry, i: int)
    requires
        0 <= i < f.include_patterns.len(),
        regex_is_match(f.include_patterns[i], e.text@),
        f.process_pids.len() == 0 || f.process_pids.contains(e.pid),
        f.process_names.len() == 0 || any_match(f.process_names, e.process_name@),
        !any_match(f.exclude_patterns, e.text@),
    ensures
        entry_matches(f, e),
{
}

/// An entry from a process whose PID is not listed never passes, when PIDs are listed.
pub proof fn lemma_unlisted_pid_rejected(f: FilterSetView, e: DebugEntry)
    requires
        f.process_pids.len() > 0,
        !f.process_pids.contains(e.pid),
    ensures
        !entry_matches(f, e),
{
}

/// The filter set with one more exclude pattern, at position `k` of its list.
pub open spec fn with_exclude(f: FilterSetView, k: int, p: Seq<char>) -> FilterSetView {
    FilterSetView { exclude_patterns: f.exclude_patterns.insert(k, p), ..f }
}

/// The filter set with one more wanted-text pattern, at position `k` of its list.
pub open spec fn with_include(f: FilterSetView, k: int, p: Seq<char>) -> FilterSetView {
    FilterSetView { include_patterns: f.include_patterns.insert(k, p), ..f }
}

/// The filter set with one more process name pattern, at position `k` of its list.
pub open spec fn with_process_name(f: FilterSetView, k: int, p: Seq<char>) -> FilterSetView {
    FilterSetView { process_names: f.process_names.insert(k, p), ..f }
}

/// The filter set with one more process ID, at position `k` of its list.
pub open spec fn with_pid(f: FilterSetView, k: int, pid: u32) -> FilterSetView {
    FilterSetView { process_pids: f.process_pids.insert(k, pid), ..f }
}

proof fn lemma_any_match_insert(
    patterns: Seq<Seq<char>>,
    k: int,
    p: Seq<char>,
    haystack: Seq<char>,
)
    requires
        0 <= k <= patterns.len(),
    ensures
        any_match(patterns, haystack) ==> any_match(patterns.insert(k, p), haystack),
        any_match(patterns.insert(k, p), haystack) ==> any_match(patterns, haystack)
            || regex_is_match(p, haystack),
{
    let q = patterns.insert(k, p);
    patterns.insert_ensures(k, p);
    if any_match(patterns, haystack) {
        let i = choose|i: int| 0 <= i < patterns.len() && #[trigger] regex_is_match(patterns[i], haystack);
        if i < k {
            assert(q[i] == patterns[i]);
        } else {
            assert(q[i + 1] == patterns[i]);
        }
    }
    if any_match(q, haystack) {
        let i = choose|i: int| 0 <= i < q.len() && #[trigger] regex_is_match(q[i], haystack);
        if i < k {
            assert(q[i] == patterns[i]);
        } else if i > k {
            assert(q[i] == patterns[i - 1]);
        }
    }
}

/// Filters only narrow when an exclude pattern is added, and only widen when an item is
/// added to a list that already has items (wanted-text patterns, process names, PIDs),
/// wherever in its list the item goes: stated of the compiled form of the filter sets,
/// which is what `compile` gives.
pub proof fn lemma_filters_monotone(
    f: FilterSetView,
    e: DebugEntry,
    k: int,
    p: Seq<char>,
    pid: u32,
)
    ensures
        0 <= k <= f.exclude_patterns.len() && entry_matches(compiled_view(with_exclude(f, k, p)), e)
            ==> entry_matches(compiled_view(f), e),
        0 <= k <= f.include_patterns.len() && f.include_patterns.len() > 0 && entry_matches(
            compiled_view(f),
            e,
        ) ==> entry_matches(compiled_view(with_include(f, k, p)), e),
        0 <= k <= f.process_names.len() && f.process_names.len() > 0 && entry_matches(
            compiled_view(f),
            e,
        ) ==> entry_matches(compiled_view(with_process_name(f, k, p)), e),
        0 <= k <= f.process_pids.len() && f.process_pids.len() > 0 && entry_matches(
            compiled_view(f),
            e,
        ) ==> entry_matches(compiled_view(with_pid(f, k, pid)), e),
{
    let c = compiled_view(f);
    if 0 <= k <= f.exclude_patterns.len() {
        lemma_any_match_insert(c.exclude_patterns, k, p, e.text@);
        assert(compiled_view(with_exclude(f, k, p)) =~= FilterSetView {
            exclude_patterns: c.exclude_patterns.insert(k, p),
            ..c
        });
    }
    if 0 <= k <= f.include_patterns.len() {
        lemma_any_match_insert(c.include_patterns, k, p, e.text@);
        assert(compiled_view(with_include(f, k, p)) =~= FilterSetView {
            include_patterns: c.include_patterns.insert(k, p),
            ..c
        });
    }
    if 0 <= k <= f.process_names.len() {
        lemma_any_match_insert(c.process_names, k, case_insensitive(p), e.process_name@);
        assert(compiled_view(with_process_name(f, k, p)).process_names =~= c.process_names.insert(
            k,
            case_insensitive(p),
        ));
    }
    if 0 <= k <= f.process_pids.len() && f.process_pids.len() > 0 && c.process_pids.contains(
        e.pid,
    ) {
        let j = choose|j: int| 0 <= j < c.process_pids.len() && c.process_pids[j] == e.pid;
        c.process_pids.insert_ensures(k, pid);
        let q = compiled_view(with_pid(f, k, pid)).process_pids;
        if j < k {
            assert(q[j] == e.pid);
        } else {
            assert(q[j + 1] == e.pid);
        }
    }
}

/// The entries that pass the filters, in their order.
pub open spec fn passing(f: FilterSetView, entries: Seq<DebugEntry>) -> Seq<DebugEntry> {
    entries.filter(|e: DebugEntry| entry_matches(f, e))
}

/// Every entry kept by filtering passes the filters, and filtering twice is
/// filtering once.
pub proof fn lemma_filtering_is_idempotent(f: FilterSetView, entries: Seq<DebugEntry>)
    ensures
        passing(f, passing(f, entries)) == passing(f, entries),
        forall|i: int|
            0 <= i < passing(f, entries).len() ==> entry_matches(f, #[trigger] passing(f, entries)[i]),
    decreases entries.len(),
{
    let pred = |e: DebugEntry| entry_matches(f, e);
    reveal_with_fuel(Seq::filter, 1);
    if entries.len() > 0 {
        lemma_filtering_is_idempotent(f, entries.drop_last());
        let sub = entries.drop_last().filter(pred);
        if pred(entries.last()) {
            assert(sub.push(entries.last()).drop_last() =~= sub);
        }
    }
    assert forall|i: int| 0 <= i < passing(f, entries).len() implies entry_matches(
        f,
        #[trigger] passing(f, entries)[i],
    ) by {
        entries.lemma_filter_pred(pred, i);
    }
}

} // verus!
