use vstd::prelude::*;

verus! {

/// A running process: its identifier and the text it is searched by
/// (name, executable path and command line).
#[derive(Debug, Clone, PartialEq, Eq)]
pub struct ProcessInfo {
    pub pid: u32,
    pub description: String,
}

/// `c` with ASCII upper case letters turned to lower case.
pub open spec fn lower_char(c: char) -> char {
    if 'A' <= c && c <= 'Z' {
        ((c as u32) + 32) as char
    } else {
        c
    }
}

/// `s` with ASCII upper case letters turned to lower case.
pub open spec fn ascii_lower(s: Seq<char>) -> Seq<char> {
    s.map_values(|c: char| lower_char(c))
}

/// Whether `needle` occurs in `hay` as a contiguous run.
pub open spec fn occurs_in(needle: Seq<char>, hay: Seq<char>) -> bool {
    exists|i: int| 0 <= i <= hay.len() - needle.len() && #[trigger] hay.subrange(i, i + needle.len()) == needle
}

/// Whether process `p` is found by `filter`, regardless of ASCII case,
/// searching from process `own`.
pub open spec fn matches_filter(p: ProcessInfo, filter: Seq<char>, own: u32) -> bool {
    occurs_in(ascii_lower(filter), ascii_lower(p.description@)) && p.pid != own
}

/// Relies on `str::to_ascii_lowercase`: ASCII letters `A`..`Z` become
/// `a`..`z`, every other character is kept.
#[verifier::external_body]
fn to_ascii_lower(s: &str) -> (r: String)
    ensures
        r@ == ascii_lower(s@),
{
    s.to_ascii_lowercase()
}

/// Relies on `str::contains` with a `&str` pattern: whether `needle` occurs
/// in `hay`.
#[verifier::external_body]
fn contains_text(hay: &str, needle: &str) -> (r: bool)
    ensures
        r == occurs_in(needle@, hay@),
{
    hay.contains(needle)
}

/// The first process, in the given order, whose description contains
/// `filter` regardless of ASCII case and which is not process `own`.
pub fn find_process(processes: &Vec<ProcessInfo>, filter: &str, own: u32) -> (r: Option<u32>)
    ensures
        r is None <==> forall|i: int|
            0 <= i < processes@.len() ==> !matches_filter(processes@[i], filter@, own),
        r matches Some(pid) ==> exists|i: int|
            0 <= i < processes@.len() && matches_filter(processes@[i], filter@, own)
                && processes@[i].pid == pid && forall|j: int|
                0 <= j < i ==> !matches_filter(processes@[j], filter@, own),
{
    let needle = to_ascii_lower(filter);
    let mut i: usize = 0;
    while i < processes.len()
        invariant
            i <= processes.len(),
            forall|j: int| 0 <= j < i ==> !matches_filter(processes@[j], filter@, own),
            needle@ == ascii_lower(filter@),
        decreases processes.len() - i,
    {
        let p = &processes[i];
        let lowered = to_ascii_lower(p.description.as_str());
        if contains_text(lowered.as_str(), needle.as_str()) && p.pid != own {
            return Some(p.pid);
        }
        i += 1;
    }
    None
}

} // verus!
