use vstd::prelude::*;

verus! {

/// Whether `needle` occurs in `hay` at position `i`.
pub open spec fn occurs_at(hay: Seq<char>, needle: Seq<char>, i: int) -> bool {
    0 <= i && i + needle.len() <= hay.len() && hay.subrange(i, i + needle.len()) == needle
}

/// Whether `needle` occurs anywhere in `hay`.
pub open spec fn contains_seq(hay: Seq<char>, needle: Seq<char>) -> bool {
    exists|i: int| occurs_at(hay, needle, i)
}

fn occurs_at_exec(hay: &str, hay_len: usize, needle: &str, needle_len: usize, i: usize) -> (r: bool)
    requires
        hay_len == hay@.len(),
        needle_len == needle@.len(),
        i + needle_len <= hay_len,
    ensures
        r == occurs_at(hay@, needle@, i as int),
{
    let mut k: usize = 0;
    while k < needle_len
        invariant
            k <= needle_len,
            hay_len == hay@.len(),
            needle_len == needle@.len(),
            i + needle_len <= hay_len,
            forall|j: int| 0 <= j < k ==> hay@[i + j] == needle@[j],
        decreases needle_len - k,
    {
        if hay.get_char(i + k) != needle.get_char(k) {
            assert(hay@.subrange(i as int, i + needle_len)[k as int] != needle@[k as int]);
            return false;
        }
        k = k + 1;
    }
    assert(hay@.subrange(i as int, i + needle_len) =~= needle@);
    true
}

/// Whether `needle` occurs in `hay`.
pub fn contains(hay: &str, needle: &str) -> (r: bool)
    ensures
        r == contains_seq(hay@, needle@),
{
    let hay_len = hay.unicode_len();
    let needle_len = needle.unicode_len();
    if needle_len > hay_len {
        return false;
    }
    let last = hay_len - needle_len;
    let mut i: usize = 0;
    while i <= last
        invariant
            last == hay_len - needle_len,
            hay_len == hay@.len(),
            needle_len == needle@.len(),
            needle_len <= hay_len,
            i <= last + 1,
            forall|j: int| 0 <= j < i ==> !occurs_at(hay@, needle@, j),
        decreases hay_len + 1 - i,
    {
        if occurs_at_exec(hay, hay_len, needle, needle_len, i) {
            return true;
        }
        if i == last {
            assert forall|j: int| !occurs_at(hay@, needle@, j) by {
                if 0 <= j <= i {
                }
            }
            return false;
        }
        i = i + 1;
    }
    assert forall|j: int| !occurs_at(hay@, needle@, j) by {
        if 0 <= j < i {
        }
    }
    false
}

/// Whether a log line from the engine is worth printing: not a debug line, and not the
/// routine announcement of gossip message types 256, 257 and 258.
pub open spec fn worth_printing(line: Seq<char>) -> bool {
    !contains_seq(line, "Received message of type 258"@)
        && !contains_seq(line, "Received message of type 256"@)
        && !contains_seq(line, "Received message of type 257"@)
        && !contains_seq(line, "DEBUG"@)
}

/// Prints the engine's log lines that are worth printing.
pub struct LogPrinter {}

impl LogPrinter {
    pub fn should_print(&self, line: &str) -> (r: bool)
        ensures
            r == worth_printing(line@),
    {
        !contains(line, "Received message of type 258")
            && !contains(line, "Received message of type 256")
            && !contains(line, "Received message of type 257")
            && !contains(line, "DEBUG")
    }
}

} // verus!
