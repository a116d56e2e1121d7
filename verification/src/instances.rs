//! Telling the other running instances of a program apart from the
//! rest of the host's process table.

use vstd::prelude::*;
use vstd::string::*;

verus! {

/// Whether `c` is white space, as Unicode defines it.
pub open spec fn is_space(c: char) -> bool {
    let code = c as u32;
    ||| 0x09 <= code <= 0x0D
    ||| code == 0x20
    ||| code == 0x85
    ||| code == 0xA0
    ||| code == 0x1680
    ||| 0x2000 <= code <= 0x200A
    ||| code == 0x2028
    ||| code == 0x2029
    ||| code == 0x202F
    ||| code == 0x205F
    ||| code == 0x3000
}

/// `s` without the white space it starts with.
pub open spec fn trim_start(s: Seq<char>) -> Seq<char>
    decreases s.len(),
{
    if s.len() > 0 && is_space(s[0]) {
        trim_start(s.skip(1))
    } else {
        s
    }
}

/// `s` without the white space it ends with.
pub open spec fn trim_end(s: Seq<char>) -> Seq<char>
    decreases s.len(),
{
    if s.len() > 0 && is_space(s.last()) {
        trim_end(s.drop_last())
    } else {
        s
    }
}

/// `s` without the white space around it.
pub open spec fn trimmed(s: Seq<char>) -> Seq<char> {
    trim_end(trim_start(s))
}

/// The value of a decimal digit.
pub open spec fn digit_value(c: char) -> Option<nat> {
    if '0' <= c <= '9' {
        Some((c as u32 - '0' as u32) as nat)
    } else {
        None
    }
}

/// Whether every character of `s` is a decimal digit.
pub open spec fn is_digits(s: Seq<char>) -> bool {
    forall|k: int| 0 <= k < s.len() ==> digit_value(#[trigger] s[k]) is Some
}

/// The number that the digits of `s` write in decimal.
pub open spec fn value_of(s: Seq<char>) -> nat
    decreases s.len(),
{
    if s.len() == 0 {
        0
    } else {
        value_of(s.drop_last()) * 10 + digit_value(s.last()).unwrap()
    }
}

/// `s` without the plus sign that it may start with.
pub open spec fn unsigned(s: Seq<char>) -> Seq<char> {
    if s.len() > 0 && s[0] == '+' {
        s.skip(1)
    } else {
        s
    }
}

/// The process identifier that `s` writes: one or more decimal
/// digits, with or without a plus sign before them, whose value fits
/// in 32 bits.
pub open spec fn parsed(s: Seq<char>) -> Option<u32> {
    let digits = unsigned(s);
    if digits.len() > 0 && is_digits(digits) && value_of(digits) <= u32::MAX {
        Some(value_of(digits) as u32)
    } else {
        None
    }
}

/// One entry of the host's process table, as far as it was read.
#[derive(Clone, Debug, PartialEq, Eq)]
pub struct ProcessEntry {
    /// The name of the entry: for a process, its identifier in decimal.
    pub name: String,
    /// Whether the entry is a directory.
    pub is_dir: bool,
    /// The user that owns the entry.
    pub uid: u32,
    /// The command name of the process, where the entry has one.
    pub comm: Option<String>,
}

/// The process that asks: its identifier in decimal and its user.
#[derive(Clone, Debug, PartialEq, Eq)]
pub struct ProcInfo {
    pub pid: String,
    pub uid: u32,
}

/// Whether the entry is another process of the same user that runs
/// the program named `bin_name`.
pub open spec fn is_other(entry: ProcessEntry, own: ProcInfo, bin_name: Seq<char>) -> bool {
    &&& entry.name@ != own.pid@
    &&& entry.is_dir
    &&& entry.uid == own.uid
    &&& entry.comm matches Some(comm) && trimmed(comm@) == bin_name
}

/// The identifier of the process to stop, if the entry is one.
pub open spec fn target(entry: ProcessEntry, own: ProcInfo, bin_name: Seq<char>) -> Option<u32> {
    if is_other(entry, own, bin_name) {
        parsed(entry.name@)
    } else {
        None
    }
}

/// Leading white space does not change what is left after it is trimmed.
proof fn lemma_trim_start(s: Seq<char>, i: int)
    requires
        0 <= i <= s.len(),
        forall|k: int| 0 <= k < i ==> is_space(#[trigger] s[k]),
    ensures
        trim_start(s) == trim_start(s.skip(i)),
    decreases i,
{
    if i == 0 {
        assert(s.skip(0) =~= s);
    } else {
        lemma_trim_start(s.skip(1), i - 1);
        assert(s.skip(1).skip(i - 1) =~= s.skip(i));
    }
}

/// Trailing white space does not change what is left after it is trimmed.
proof fn lemma_trim_end(s: Seq<char>, j: int)
    requires
        0 <= j <= s.len(),
        forall|k: int| j <= k < s.len() ==> is_space(#[trigger] s[k]),
    ensures
        trim_end(s) == trim_end(s.take(j)),
    decreases s.len() - j,
{
    if j == s.len() {
        assert(s.take(j) =~= s);
    } else {
        lemma_trim_end(s.drop_last(), j);
        assert(s.drop_last().take(j) =~= s.take(j));
    }
}

/// More digits never write a smaller number.
proof fn lemma_value_grows(s: Seq<char>, k: int)
    requires
        0 <= k <= s.len(),
        is_digits(s),
    ensures
        value_of(s.take(k)) <= value_of(s),
    decreases s.len() - k,
{
    if k == s.len() {
        assert(s.take(k) =~= s);
    } else {
        lemma_value_grows(s.drop_last(), k);
        assert(s.drop_last().take(k) =~= s.take(k));
        assert(digit_value(s.last()) is Some);
    }
}

/// Whether `c` is white space.
fn is_whitespace(c: char) -> (space: bool)
    ensures
        space == is_space(c),
{
    let code = c as u32;
    (0x09 <= code && code <= 0x0D) || code == 0x20 || code == 0x85 || code == 0xA0 || code
        == 0x1680 || (0x2000 <= code && code <= 0x200A) || code == 0x2028 || code == 0x2029 || code
        == 0x202F || code == 0x205F || code == 0x3000
}

/// Whether `comm`, without the white space around it, is `bin_name`.
pub fn is_instance_name(comm: &str, bin_name: &str) -> (same: bool)
    ensures
        same == (trimmed(comm@) == bin_name@),
{
    let n = comm.unicode_len();
    let mut i: usize = 0;
    while i < n && is_whitespace(comm.get_char(i))
        invariant
            i <= n,
            n == comm@.len(),
            forall|k: int| 0 <= k < i ==> is_space(#[trigger] comm@[k]),
        decreases n - i,
    {
        i += 1;
    }
    let mut j: usize = n;
    while j > i && is_whitespace(comm.get_char(j - 1))
        invariant
            i <= j <= n,
            n == comm@.len(),
            forall|k: int| j <= k < n ==> is_space(#[trigger] comm@[k]),
        decreases j,
    {
        j -= 1;
    }
    proof {
        let rest = comm@.skip(i as int);
        lemma_trim_start(comm@, i as int);
        assert(trim_start(rest) == rest);
        assert forall|k: int| j - i <= k < rest.len() implies is_space(#[trigger] rest[k]) by {
            assert(rest[k] == comm@[k + i]);
        }
        lemma_trim_end(rest, j - i);
        let core = rest.take(j - i);
        if j > i {
            assert(core.last() == comm@[j - 1]);
        }
        assert(trim_end(core) == core);
        assert(core =~= comm@.subrange(i as int, j as int));
    }
    let m = bin_name.unicode_len();
    if j - i != m {
        return false;
    }
    let mut k: usize = 0;
    while k < m
        invariant
            k <= m,
            m == bin_name@.len(),
            i <= j <= n,
            j - i == m,
            n == comm@.len(),
            trimmed(comm@) == comm@.subrange(i as int, j as int),
            forall|l: int| 0 <= l < k ==> comm@[i + l] == bin_name@[l],
        decreases m - k,
    {
        if comm.get_char(i + k) != bin_name.get_char(k) {
            assert(comm@.subrange(i as int, j as int)[k as int] != bin_name@[k as int]);
            return false;
        }
        k += 1;
    }
    assert(comm@.subrange(i as int, j as int) =~= bin_name@);
    true
}

/// Reads a process identifier: decimal digits, with or without a plus
/// sign before them. Anything else, and a value above 32 bits, gives
/// `None`.
pub fn parse_pid(name: &str) -> (pid: Option<u32>)
    ensures
        pid == parsed(name@),
{
    let n = name.unicode_len();
    let start: usize = if n > 0 && name.get_char(0) == '+' {
        1
    } else {
        0
    };
    let ghost digits = unsigned(name@);
    assert(digits =~= name@.skip(start as int));
    if start == n {
        return None;
    }
    let mut value: u64 = 0;
    let mut i: usize = start;
    assert(digits.take(0) =~= Seq::<char>::empty());
    while i < n
        invariant
            start <= i <= n,
            n == name@.len(),
            digits == name@.skip(start as int),
            digits == unsigned(name@),
            is_digits(digits.take(i - start)),
            value == value_of(digits.take(i - start)),
            value <= u32::MAX,
        decreases n - i,
    {
        let c = name.get_char(i);
        let code = c as u32;
        let ghost longer = digits.take(i - start + 1);
        assert(longer.drop_last() =~= digits.take(i - start));
        assert(longer.last() == c);
        if code < 48 || code > 57 {
            assert(digit_value(digits[i - start]) is None);
            return None;
        }
        let next = value * 10 + (code - 48) as u64;
        assert(is_digits(longer)) by {
            assert forall|k: int| 0 <= k < longer.len() implies digit_value(
                #[trigger] longer[k],
            ) is Some by {
                if k < longer.len() - 1 {
                    assert(longer[k] == digits.take(i - start)[k]);
                }
            }
        }
        assert(next == value_of(longer));
        if next > u32::MAX as u64 {
            proof {
                if is_digits(digits) {
                    lemma_value_grows(digits, i - start + 1);
                }
            }
            return None;
        }
        value = next;
        i += 1;
    }
    assert(digits.take(n - start) =~= digits);
    Some(value as u32)
}

/// The identifier that the name of a process entry writes.
pub fn to_pid(name: &str) -> (pid: u32)
    requires
        parsed(name@) is Some,
    ensures
        Some(pid) == parsed(name@),
{
    match parse_pid(name) {
        Some(pid) => pid,
        None => 0,
    }
}

/// Whether the entry is another process of the same user that runs
/// the program named `bin_name`: it is not the asking process, it is a
/// directory of the same user, and its command name, without the
/// white space around it, is `bin_name`.
pub fn is_other_instance(entry: &ProcessEntry, own: &ProcInfo, bin_name: &str) -> (other: bool)
    ensures
        other == is_other(*entry, *own, bin_name@),
{
    if entry.name == own.pid {
        return false;
    }
    if !(entry.is_dir && entry.uid == own.uid) {
        return false;
    }
    match &entry.comm {
        Some(comm) => is_instance_name(comm.as_str(), bin_name),
        None => false,
    }
}

/// The processes to stop: the identifier of every entry that is
/// another instance, in the order of the table. An instance whose
/// name writes no identifier is left out.
pub fn other_instances(entries: &Vec<ProcessEntry>, own: &ProcInfo, bin_name: &str) -> (pids: Vec<
    u32,
>)
    ensures
        pids@ == entries@.filter_map(|entry: ProcessEntry| target(entry, *own, bin_name@)),
{
    let mut pids: Vec<u32> = Vec::new();
    let n = entries.len();
    let mut i: usize = 0;
    let ghost pick = |entry: ProcessEntry| target(entry, *own, bin_name@);
    assert(entries@.take(0) =~= Seq::<ProcessEntry>::empty());
    while i < n
        invariant
            i <= n,
            n == entries.len(),
            pick == |entry: ProcessEntry| target(entry, *own, bin_name@),
            pids@ == entries@.take(i as int).filter_map(pick),
        decreases n - i,
    {
        proof {
            entries@.lemma_filter_map_take_succ(pick, i as int);
        }
        if is_other_instance(&entries[i], own, bin_name) {
            match parse_pid(entries[i].name.as_str()) {
                Some(pid) => {
                    pids.push(pid);
                },
                None => {},
            }
        }
        i += 1;
    }
    assert(entries@.take(n as int) =~= entries@);
    pids
}

} // verus!
