//! The values a caller collects from a user: who is logged in, a login
//! code, a new story, and where the photos live.
use vstd::prelude::*;

verus! {

/// Evidence that the caller is logged in.
pub struct LoggedIn;

/// A login code as typed by the user.
#[derive(Clone, Debug)]
pub struct LoginForm {
    pub code: String,
}

/// The value of a run of decimal digits.
pub open spec fn digits_value(s: Seq<char>) -> nat
    decreases s.len(),
{
    if s.len() == 0 {
        0
    } else {
        (10 * digits_value(s.drop_last()) + ((s.last() as u32) - ('0' as u32))) as nat
    }
}

pub open spec fn all_digits(s: Seq<char>) -> bool {
    forall|i: int| 0 <= i < s.len() ==> '0' <= #[trigger] s[i] <= '9'
}

/// The unsigned number a text writes: an optional `+`, then one or more
/// decimal digits, of a value that fits in 32 bits.
pub open spec fn parsed_u32(s: Seq<char>) -> Option<u32> {
    let d = if s.len() > 0 && s[0] == '+' { s.drop_first() } else { s };
    if d.len() > 0 && all_digits(d) && digits_value(d) <= u32::MAX {
        Some(digits_value(d) as u32)
    } else {
        None
    }
}

impl LoginForm {
    /// The code as a number; text that is no such number counts as 0.
    pub fn code_value(&self) -> (r: u32)
        ensures
            r == match parsed_u32(self.code@) { Some(v) => v, None => 0 },
    {
        let s = self.code.as_str();
        let n = s.unicode_len();
        let start: usize = if n > 0 && s.get_char(0) == '+' { 1 } else { 0 };
        let ghost d = if n > 0 && s@[0] == '+' { s@.drop_first() } else { s@ };
        assert(d =~= s@.subrange(start as int, n as int));
        if start == n {
            return 0;
        }
        let mut v: u64 = 0;
        let mut i: usize = start;
        while i < n
            invariant
                start <= i <= n,
                n == s@.len(),
                d == s@.subrange(start as int, n as int),
                d == (if s@.len() > 0 && s@[0] == '+' { s@.drop_first() } else { s@ }),
                s@ == self.code@,
                all_digits(s@.subrange(start as int, i as int)),
                v == digits_value(s@.subrange(start as int, i as int)),
                v <= u32::MAX,
            decreases n - i,
        {
            let c = s.get_char(i);
            if c < '0' || c > '9' {
                assert(d[i - start] == c);
                assert(!('0' <= d[i - start] <= '9'));
                assert(!all_digits(d));
                return 0;
            }
            let next = 10 * v + (c as u64 - '0' as u64);
            let ghost pre = s@.subrange(start as int, i + 1);
            assert(pre.drop_last() =~= s@.subrange(start as int, i as int));
            if next > u32::MAX as u64 {
                proof {
                    assert(d.subrange(0, pre.len() as int) =~= pre);
                    if all_digits(d) {
                        lemma_digits_value_grows(d, pre.len() as int);
                    }
                }
                return 0;
            }
            v = next;
            i = i + 1;
        }
        assert(s@.subrange(start as int, n as int) =~= d);
        v as u32
    }
}

/// A longer run of digits never has a smaller value.
proof fn lemma_digits_value_grows(s: Seq<char>, k: int)
    requires
        0 <= k <= s.len(),
        all_digits(s),
    ensures
        digits_value(s.subrange(0, k)) <= digits_value(s),
    decreases s.len() - k,
{
    if k < s.len() {
        lemma_digits_value_grows(s, k + 1);
        let p = s.subrange(0, k + 1);
        assert(p.drop_last() =~= s.subrange(0, k));
        assert('0' <= s[k] <= '9');
        assert(p.last() == s[k]);
        assert(digits_value(p) >= digits_value(s.subrange(0, k)));
    } else {
        assert(s.subrange(0, k) =~= s);
    }
}

/// A new story as entered: its title and description.
#[derive(Clone, Debug)]
pub struct StoryForm {
    pub title: String,
    pub description: String,
}

/// Tells request handlers where the photos are stored.
#[derive(Clone, Debug)]
pub struct PhotosDirMiddleware {
    pub dir: String,
}

impl PhotosDirMiddleware {
    pub fn new(dir: String) -> (r: PhotosDirMiddleware)
        ensures
            r.dir == dir,
    {
        PhotosDirMiddleware { dir }
    }
}

} // verus!
