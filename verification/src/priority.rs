//! Scoring a candidate icon from its declared size and its file type.

use vstd::prelude::*;
use vstd::string::*;
use crate::pattern::{captures, group_views, pattern_groups};
use crate::text::{ends_with, has_suffix, opt_text};

verus! {

/// The pattern that finds a width and a height in a `sizes` attribute: the
/// first two runs of digits, with the non-digits between them.
pub open spec fn size_pattern_text() -> Seq<char> {
    "(\\d+)\\D+(\\d+)"@
}

/// The size pattern, for the pattern engine.
pub fn size_pattern() -> (p: &'static str)
    ensures
        p@ == size_pattern_text(),
{
    "(\\d+)\\D+(\\d+)"
}

/// `c` is one of the ten ASCII digits.
pub open spec fn is_digit(c: char) -> bool {
    '0' <= c && c <= '9'
}

/// The number that the digits of `s` write in base ten.
pub open spec fn decimal_value(s: Seq<char>) -> nat
    decreases s.len(),
{
    if s.len() == 0 {
        0
    } else {
        10 * decimal_value(s.drop_last()) + ((s.last() as u32 - '0' as u32) as nat)
    }
}

/// The value of a run of digits as a 16-bit number: 0 where the run is empty,
/// holds anything but ASCII digits, or writes a number above 65535.
pub open spec fn run_value(s: Seq<char>) -> u16 {
    if s.len() > 0 && (forall|i: int| 0 <= i < s.len() ==> is_digit(#[trigger] s[i]))
        && decimal_value(s) <= 65535 {
        decimal_value(s) as u16
    } else {
        0
    }
}

/// The value of an optional capture group: that of its run, 0 where absent.
pub open spec fn group_value(g: Option<Seq<char>>) -> u16 {
    match g {
        Some(s) => run_value(s),
        None => 0,
    }
}

/// Width and height out of the capture groups of the size pattern: groups 1
/// and 2 where a match with at least three groups was found, else `(0, 0)`.
pub open spec fn dimensions(groups: Option<Seq<Option<Seq<char>>>>) -> (u16, u16) {
    match groups {
        Some(g) => if g.len() >= 3 {
            (group_value(g[1]), group_value(g[2]))
        } else {
            (0, 0)
        },
        None => (0, 0),
    }
}

/// Width and height that a `sizes` attribute declares; `(0, 0)` where the
/// attribute is absent or declares none.
pub open spec fn declared_size(sizes: Option<Seq<char>>) -> (u16, u16) {
    match sizes {
        Some(s) => dimensions(pattern_groups(size_pattern_text(), s)),
        None => (0, 0),
    }
}

/// The score of an icon of the given declared size at address `href`.
///
/// A declared size (both sides non-zero) decides alone: 200 for a non-square,
/// else 1 for 32, 2 for 64, 3 for another width from 24 to 128, 4 for 16 and 5
/// for the rest. Without one the file type decides: 10 for `.png`, 20 for
/// `.jpg` and `.jpeg`, 30 for anything else.
pub open spec fn size_priority(href: Seq<char>, width: u16, height: u16) -> u8 {
    if width != 0 && height != 0 {
        if width != height {
            200
        } else if width == 32 {
            1
        } else if width == 64 {
            2
        } else if 24 <= width <= 128 {
            3
        } else if width == 16 {
            4
        } else {
            5
        }
    } else if has_suffix(href, ".png"@) {
        10
    } else if has_suffix(href, ".jpg"@) || has_suffix(href, ".jpeg"@) {
        20
    } else {
        30
    }
}

/// The score of an icon at address `href` whose `sizes` attribute is `sizes`.
pub open spec fn icon_priority(href: Seq<char>, sizes: Option<Seq<char>>) -> u8 {
    size_priority(href, declared_size(sizes).0, declared_size(sizes).1)
}

/// A prefix of a digit run writes no larger number than the run.
proof fn lemma_prefix_value(s: Seq<char>, n: int)
    requires
        0 <= n <= s.len(),
        forall|i: int| 0 <= i < s.len() ==> is_digit(#[trigger] s[i]),
    ensures
        decimal_value(s.take(n)) <= decimal_value(s),
    decreases s.len(),
{
    if n == s.len() {
        assert(s.take(n) =~= s);
    } else {
        lemma_prefix_value(s.drop_last(), n);
        assert(s.drop_last().take(n) =~= s.take(n));
    }
}

/// Reads a run of digits as a 16-bit number.
pub fn parse_run(s: &str) -> (value: u16)
    ensures
        value == run_value(s@),
{
    let n: usize = s.unicode_len();
    if n == 0 {
        return 0;
    }
    let mut acc: u32 = 0;
    let mut i: usize = 0;
    while i < n
        invariant
            i <= n,
            n == s@.len(),
            forall|j: int| 0 <= j < i ==> is_digit(#[trigger] s@[j]),
            acc == decimal_value(s@.take(i as int)),
            acc <= 65535,
        decreases n - i,
    {
        let c: char = s.get_char(i);
        if c < '0' || c > '9' {
            return 0;
        }
        let d: u32 = c as u32 - '0' as u32;
        proof {
            assert(s@.take(i + 1).drop_last() =~= s@.take(i as int));
            assert(s@.take(i + 1).last() == c);
        }
        acc = acc * 10 + d;
        i += 1;
        if acc > 65535 {
            proof {
                if forall|j: int| 0 <= j < s@.len() ==> is_digit(#[trigger] s@[j]) {
                    lemma_prefix_value(s@, i as int);
                }
            }
            return 0;
        }
    }
    assert(s@.take(n as int) =~= s@);
    acc as u16
}

/// Reads one capture group as a 16-bit number.
pub fn parse_group(group: &Option<String>) -> (value: u16)
    ensures
        value == group_value(opt_text(*group)),
{
    match group {
        Some(s) => parse_run(s.as_str()),
        None => 0,
    }
}

/// Width and height out of what the size pattern captured.
pub fn dimensions_of(groups: &Option<Vec<Option<String>>>) -> (size: (u16, u16))
    ensures
        size == dimensions(
            match *groups {
                Some(g) => Some(group_views(g@)),
                None => None,
            },
        ),
{
    match groups {
        Some(g) => {
            if g.len() >= 3 {
                (parse_group(&g[1]), parse_group(&g[2]))
            } else {
                (0, 0)
            }
        },
        None => (0, 0),
    }
}

/// Width and height declared by a `sizes` attribute, `(0, 0)` where there is
/// none to be read.
pub fn parse_sizes(sizes: Option<String>) -> (size: (u16, u16))
    ensures
        size == declared_size(opt_text(sizes)),
{
    match sizes {
        Some(s) => {
            let groups = captures(size_pattern(), s.as_str());
            dimensions_of(&groups)
        },
        None => (0, 0),
    }
}

/// The score of an icon of a known declared size.
pub fn priority_for_size(href: &str, width: u16, height: u16) -> (priority: u8)
    ensures
        priority == size_priority(href@, width, height),
{
    if width != 0 && height != 0 {
        if width == height {
            if width == 32 {
                1
            } else if width == 64 {
                2
            } else if width >= 24 && width <= 128 {
                3
            } else if width == 16 {
                4
            } else {
                5
            }
        } else {
            200
        }
    } else if ends_with(href, ".png") {
        10
    } else if ends_with(href, ".jpg") || ends_with(href, ".jpeg") {
        20
    } else {
        30
    }
}

/// The score of the icon at `href` with the given `sizes` attribute; lower is
/// better.
pub fn get_icon_priority(href: &str, sizes: Option<String>) -> (priority: u8)
    ensures
        priority == icon_priority(href@, opt_text(sizes)),
{
    let (width, height) = parse_sizes(sizes);
    priority_for_size(href, width, height)
}

/// Every score is one of the nine that the rules hand out.
pub proof fn lemma_priority_values(href: Seq<char>, width: u16, height: u16)
    ensures
        ({
            let p = size_priority(href, width, height);
            p == 1 || p == 2 || p == 3 || p == 4 || p == 5 || p == 10 || p == 20 || p == 30 || p
                == 200
        }),
{
}

/// Whatever the address: a 32-pixel square beats a 64-pixel one, which beats
/// any other square from 24 to 128 pixels, which beats a 16-pixel one, which
/// beats every other square; any declared square beats any undeclared size,
/// and a declared non-square loses to everything.
pub proof fn lemma_size_order(
    href: Seq<char>,
    other: Seq<char>,
    mid: u16,
    odd: u16,
    width: u16,
    height: u16,
)
    requires
        24 <= mid <= 128,
        mid != 32,
        mid != 64,
        odd != 0,
        odd < 24 || odd > 128,
        odd != 16,
        width != 0,
        height != 0,
        width != height,
    ensures
        size_priority(href, 32, 32) < size_priority(href, 64, 64),
        size_priority(href, 64, 64) < size_priority(href, mid, mid),
        size_priority(href, mid, mid) < size_priority(href, 16, 16),
        size_priority(href, 16, 16) < size_priority(href, odd, odd),
        size_priority(href, odd, odd) < size_priority(other, 0, 0),
        size_priority(other, 0, 0) < 35,
        35 < size_priority(href, width, height),
        size_priority(href, width, height) == 200,
{
}

/// With a declared size the address plays no part: two icons with the same
/// `sizes` attribute that declares one score the same, wherever they are.
pub proof fn lemma_declared_size_decides(a: Seq<char>, b: Seq<char>, sizes: Option<Seq<char>>)
    ensures
        declared_size(sizes).0 != 0 && declared_size(sizes).1 != 0 ==> icon_priority(a, sizes)
            == icon_priority(b, sizes),
{
}

/// Without a declared size only the ending of the address counts: 10 for
/// `.png`, 20 for `.jpg` and `.jpeg`, 30 for the rest.
pub proof fn lemma_undeclared_by_ending(href: Seq<char>, sizes: Option<Seq<char>>)
    ensures
        icon_priority(href, None) == if has_suffix(href, ".png"@) {
            10u8
        } else if has_suffix(href, ".jpg"@) || has_suffix(href, ".jpeg"@) {
            20u8
        } else {
            30u8
        },
        declared_size(sizes).0 == 0 || declared_size(sizes).1 == 0 ==> icon_priority(href, sizes)
            == icon_priority(href, None),
{
}

} // verus!
